//! Layered settings: defaults, then global user, then workspace user, then
//! safe project-shared configuration. The effective value of a key comes
//! from the highest-priority layer that sets it, and its source is
//! inspectable.

use vstd::prelude::*;
use crate::text::{copy_string, first_match, lemma_first_match_found, lemma_first_match_is, owned};

verus! {

/// A settings layer.
#[derive(Debug, Clone, Copy, PartialEq, Eq, Hash, Structural)]
pub enum SettingsSource {
    Defaults,
    GlobalUser,
    WorkspaceUser,
    ProjectShared,
}

/// An effective value and the layer it comes from.
#[derive(Debug, Clone)]
pub struct SettingValue {
    pub value: String,
    pub source: SettingsSource,
}

pub struct SettingValueView {
    pub value: Seq<char>,
    pub source: SettingsSource,
}

impl View for SettingValue {
    type V = SettingValueView;

    open spec fn view(&self) -> SettingValueView {
        SettingValueView { value: self.value@, source: self.source }
    }
}

pub open spec fn values_view(s: Seq<SettingValue>) -> Seq<SettingValueView> {
    s.map_values(|v: SettingValue| v@)
}

/// A layer: keys and values, each key once, in the order first set.
pub type LayerView = Seq<(Seq<char>, Seq<char>)>;

pub open spec fn layer_view(s: Seq<(String, String)>) -> LayerView {
    s.map_values(|p: (String, String)| (p.0@, p.1@))
}

pub open spec fn layer_keys(l: LayerView) -> Seq<Seq<char>> {
    l.map_values(|p: (Seq<char>, Seq<char>)| p.0)
}

/// The value of `key` in a layer.
pub open spec fn layer_get(l: LayerView, key: Seq<char>) -> Option<Seq<char>> {
    let k = first_match(layer_keys(l), key);
    if k < l.len() {
        Some(l[k].1)
    } else {
        None
    }
}

/// The layer after setting `key` to `value`.
pub open spec fn layer_set(l: LayerView, key: Seq<char>, value: Seq<char>) -> LayerView {
    let k = first_match(layer_keys(l), key);
    if k < l.len() {
        l.update(k, (key, value))
    } else {
        l.push((key, value))
    }
}

/// The four layers, lowest priority first.
pub struct LayersView {
    pub defaults: LayerView,
    pub global_user: LayerView,
    pub workspace_user: LayerView,
    pub project_shared: LayerView,
}

/// The layers after setting `key` to `value` in layer `s`.
pub open spec fn layers_set(ls: LayersView, s: SettingsSource, key: Seq<char>, value: Seq<char>)
    -> LayersView
{
    match s {
        SettingsSource::Defaults => LayersView { defaults: layer_set(ls.defaults, key, value), ..ls },
        SettingsSource::GlobalUser => LayersView {
            global_user: layer_set(ls.global_user, key, value),
            ..ls
        },
        SettingsSource::WorkspaceUser => LayersView {
            workspace_user: layer_set(ls.workspace_user, key, value),
            ..ls
        },
        SettingsSource::ProjectShared => LayersView {
            project_shared: layer_set(ls.project_shared, key, value),
            ..ls
        },
    }
}

/// The effective value of `key`: project-shared over workspace user over
/// global user over defaults.
pub open spec fn effective_value(ls: LayersView, key: Seq<char>) -> Option<SettingValueView> {
    if let Some(v) = layer_get(ls.project_shared, key) {
        Some(SettingValueView { value: v, source: SettingsSource::ProjectShared })
    } else if let Some(v) = layer_get(ls.workspace_user, key) {
        Some(SettingValueView { value: v, source: SettingsSource::WorkspaceUser })
    } else if let Some(v) = layer_get(ls.global_user, key) {
        Some(SettingValueView { value: v, source: SettingsSource::GlobalUser })
    } else if let Some(v) = layer_get(ls.defaults, key) {
        Some(SettingValueView { value: v, source: SettingsSource::Defaults })
    } else {
        None
    }
}

/// The first occurrence of each key of `ks`, in order.
pub open spec fn distinct_keys(ks: Seq<Seq<char>>) -> Seq<Seq<char>>
    decreases ks.len(),
{
    if ks.len() == 0 {
        seq![]
    } else {
        let d = distinct_keys(ks.drop_last());
        if d.contains(ks.last()) {
            d
        } else {
            d.push(ks.last())
        }
    }
}

/// Every key set in some layer, once, in layer order from the defaults up.
pub open spec fn all_keys(ls: LayersView) -> Seq<Seq<char>> {
    distinct_keys(
        layer_keys(ls.defaults) + layer_keys(ls.global_user) + layer_keys(ls.workspace_user)
            + layer_keys(ls.project_shared),
    )
}

/// Layered settings.
pub struct SettingsStore {
    defaults: Vec<(String, String)>,
    global_user: Vec<(String, String)>,
    workspace_user: Vec<(String, String)>,
    project_shared: Vec<(String, String)>,
}

fn layer_find(layer: &Vec<(String, String)>, key: &str) -> (r: usize)
    ensures
        r as int == first_match(layer_keys(layer_view(layer@)), key@),
{
    let target = owned(key);
    let ghost keys = layer_keys(layer_view(layer@));
    let mut i: usize = 0;
    while i < layer.len() && !(layer[i].0 == target)
        invariant
            i <= layer@.len(),
            target@ == key@,
            keys == layer_keys(layer_view(layer@)),
            forall|j: int| 0 <= j < i ==> keys[j] != key@,
        decreases layer.len() - i,
    {
        assert(keys[i as int] == layer@[i as int].0@);
        i = i + 1;
    }
    if i < layer.len() {
        assert(keys[i as int] == layer@[i as int].0@);
    }
    proof {
        lemma_first_match_is(keys, key@, i as int);
    }
    i
}

fn layer_put(layer: &mut Vec<(String, String)>, key: &str, value: &str)
    ensures
        layer_view(final(layer)@) == layer_set(layer_view(old(layer)@), key@, value@),
{
    let k = layer_find(layer, key);
    let ghost before = layer_view(layer@);
    if k < layer.len() {
        layer.set(k, (owned(key), owned(value)));
        assert(layer_view(layer@) =~= before.update(k as int, (key@, value@)));
    } else {
        layer.push((owned(key), owned(value)));
        assert(layer_view(layer@) =~= before.push((key@, value@)));
    }
}

fn layer_lookup(layer: &Vec<(String, String)>, key: &str) -> (r: Option<String>)
    ensures
        r matches Some(v) ==> layer_get(layer_view(layer@), key@) == Some(v@),
        r is None ==> layer_get(layer_view(layer@), key@) is None,
{
    let k = layer_find(layer, key);
    if k < layer.len() {
        Some(copy_string(&layer[k].1))
    } else {
        None
    }
}

impl SettingsStore {
    /// The four layers.
    pub closed spec fn layers(self) -> LayersView {
        LayersView {
            defaults: layer_view(self.defaults@),
            global_user: layer_view(self.global_user@),
            workspace_user: layer_view(self.workspace_user@),
            project_shared: layer_view(self.project_shared@),
        }
    }

    /// Four empty layers.
    pub fn new() -> (r: Self)
        ensures
            r.layers() == (LayersView {
                defaults: seq![],
                global_user: seq![],
                workspace_user: seq![],
                project_shared: seq![],
            }),
    {
        let r = SettingsStore {
            defaults: Vec::new(),
            global_user: Vec::new(),
            workspace_user: Vec::new(),
            project_shared: Vec::new(),
        };
        assert(r.layers().defaults =~= Seq::<(Seq<char>, Seq<char>)>::empty());
        assert(r.layers().global_user =~= Seq::<(Seq<char>, Seq<char>)>::empty());
        assert(r.layers().workspace_user =~= Seq::<(Seq<char>, Seq<char>)>::empty());
        assert(r.layers().project_shared =~= Seq::<(Seq<char>, Seq<char>)>::empty());
        r
    }

    /// Sets `key` to `value` in layer `source`.
    pub fn set(&mut self, source: SettingsSource, key: &str, value: &str)
        ensures
            final(self).layers() == layers_set(old(self).layers(), source, key@, value@),
    {
        match source {
            SettingsSource::Defaults => layer_put(&mut self.defaults, key, value),
            SettingsSource::GlobalUser => layer_put(&mut self.global_user, key, value),
            SettingsSource::WorkspaceUser => layer_put(&mut self.workspace_user, key, value),
            SettingsSource::ProjectShared => layer_put(&mut self.project_shared, key, value),
        }
    }

    /// The effective value of `key` and its source: the highest-priority
    /// layer that sets it wins.
    pub fn get(&self, key: &str) -> (r: Option<SettingValue>)
        ensures
            r matches Some(v) ==> effective_value(self.layers(), key@) == Some(v@),
            r is None ==> effective_value(self.layers(), key@) is None,
    {
        if let Some(v) = layer_lookup(&self.project_shared, key) {
            return Some(SettingValue { value: v, source: SettingsSource::ProjectShared });
        }
        if let Some(v) = layer_lookup(&self.workspace_user, key) {
            return Some(SettingValue { value: v, source: SettingsSource::WorkspaceUser });
        }
        if let Some(v) = layer_lookup(&self.global_user, key) {
            return Some(SettingValue { value: v, source: SettingsSource::GlobalUser });
        }
        if let Some(v) = layer_lookup(&self.defaults, key) {
            return Some(SettingValue { value: v, source: SettingsSource::Defaults });
        }
        None
    }

    /// All effective settings with their sources: one per key set in some
    /// layer, keys in the order of `all_keys`.
    pub fn effective(&self) -> (r: Vec<SettingValue>)
        ensures
            values_view(r@) == all_keys(self.layers()).map_values(
                |k: Seq<char>| effective_value(self.layers(), k)->Some_0,
            ),
    {
        let ghost ls = self.layers();
        let mut keys: Vec<String> = Vec::new();
        assert(keys@.map_values(|k: String| k@) =~= Seq::<Seq<char>>::empty());
        collect_keys(&mut keys, &self.defaults);
        let ghost k1 = keys@.map_values(|k: String| k@);
        collect_keys(&mut keys, &self.global_user);
        let ghost k2 = keys@.map_values(|k: String| k@);
        collect_keys(&mut keys, &self.workspace_user);
        let ghost k3 = keys@.map_values(|k: String| k@);
        collect_keys(&mut keys, &self.project_shared);
        let ghost all = layer_keys(ls.defaults) + layer_keys(ls.global_user) + layer_keys(
            ls.workspace_user,
        ) + layer_keys(ls.project_shared);
        proof {
            lemma_distinct_keys_concat(layer_keys(ls.defaults), layer_keys(ls.global_user));
            lemma_distinct_keys_concat(
                layer_keys(ls.defaults) + layer_keys(ls.global_user),
                layer_keys(ls.workspace_user),
            );
            lemma_distinct_keys_concat(
                layer_keys(ls.defaults) + layer_keys(ls.global_user) + layer_keys(
                    ls.workspace_user,
                ),
                layer_keys(ls.project_shared),
            );
            assert(distinct_keys(Seq::<Seq<char>>::empty()) =~= Seq::<Seq<char>>::empty());
            lemma_distinct_keys_concat(Seq::<Seq<char>>::empty(), layer_keys(ls.defaults));
            assert(Seq::<Seq<char>>::empty() + layer_keys(ls.defaults) =~= layer_keys(ls.defaults));
            assert(k1 == distinct_keys(layer_keys(ls.defaults)));
            assert(k2 == distinct_keys(layer_keys(ls.defaults) + layer_keys(ls.global_user)));
            assert(k3 == distinct_keys(
                layer_keys(ls.defaults) + layer_keys(ls.global_user) + layer_keys(ls.workspace_user),
            ));
        }
        let ghost kv = keys@.map_values(|k: String| k@);
        assert(kv == all_keys(ls));
        proof {
            assert forall|j: int| 0 <= j < kv.len() implies (#[trigger] effective_value(ls, kv[j])) is Some by {
                lemma_distinct_keys_subset(all, kv[j]);
                lemma_has_key_has_value(ls, kv[j]);
            }
        }
        let mut out: Vec<SettingValue> = Vec::new();
        let mut i: usize = 0;
        while i < keys.len()
            invariant
                i <= keys@.len(),
                ls == self.layers(),
                kv == keys@.map_values(|k: String| k@),
                kv == all_keys(ls),
                forall|j: int| 0 <= j < kv.len() ==> (#[trigger] effective_value(ls, kv[j])) is Some,
                values_view(out@) == kv.subrange(0, i as int).map_values(
                    |k: Seq<char>| effective_value(ls, k)->Some_0,
                ),
            decreases keys.len() - i,
        {
            assert(kv[i as int] == keys@[i as int]@);
            let ghost some = effective_value(ls, kv[i as int]);
            match self.get(keys[i].as_str()) {
                Some(v) => {
                    let ghost before = values_view(out@);
                    let ghost vv = v@;
                    out.push(v);
                    assert(values_view(out@) =~= before.push(vv));
                    assert(kv.subrange(0, i + 1) =~= kv.subrange(0, i as int).push(kv[i as int]));
                    assert(values_view(out@) =~= kv.subrange(0, i + 1).map_values(
                        |k: Seq<char>| effective_value(ls, k)->Some_0,
                    ));
                },
                None => {
                    assert(false);
                },
            }
            i = i + 1;
        }
        assert(kv.subrange(0, i as int) =~= kv);
        out
    }
}

/// Appends to `keys` each key of `layer` not yet in it.
fn collect_keys(keys: &mut Vec<String>, layer: &Vec<(String, String)>)
    ensures
        final(keys)@.map_values(|k: String| k@) == distinct_from(
            old(keys)@.map_values(|k: String| k@),
            layer_keys(layer_view(layer@)),
        ),
{
    let ghost lk = layer_keys(layer_view(layer@));
    let ghost start = keys@.map_values(|k: String| k@);
    let mut i: usize = 0;
    assert(lk.subrange(0, 0) =~= Seq::<Seq<char>>::empty());
    while i < layer.len()
        invariant
            i <= layer@.len(),
            lk == layer_keys(layer_view(layer@)),
            keys@.map_values(|k: String| k@) == distinct_from(start, lk.subrange(0, i as int)),
        decreases layer.len() - i,
    {
        let k = &layer[i].0;
        assert(lk[i as int] == k@);
        assert(lk.subrange(0, i + 1).drop_last() =~= lk.subrange(0, i as int));
        let ghost cur = keys@.map_values(|k: String| k@);
        let mut found = false;
        let mut j: usize = 0;
        while j < keys.len() && !found
            invariant
                j <= keys@.len(),
                cur == keys@.map_values(|k: String| k@),
                found ==> cur.contains(k@),
                !found ==> forall|m: int| 0 <= m < j ==> cur[m] != k@,
            decreases keys.len() - j,
        {
            assert(cur[j as int] == keys@[j as int]@);
            if keys[j] == *k {
                found = true;
            }
            j = j + 1;
        }
        if !found {
            keys.push(copy_string(k));
            assert(keys@.map_values(|k: String| k@) =~= cur.push(k@));
        }
        i = i + 1;
    }
    assert(lk.subrange(0, i as int) =~= lk);
}

/// `seen` extended with the first occurrence of each key of `ks` not in it.
pub open spec fn distinct_from(seen: Seq<Seq<char>>, ks: Seq<Seq<char>>) -> Seq<Seq<char>>
    decreases ks.len(),
{
    if ks.len() == 0 {
        seen
    } else {
        let d = distinct_from(seen, ks.drop_last());
        if d.contains(ks.last()) {
            d
        } else {
            d.push(ks.last())
        }
    }
}

proof fn lemma_distinct_keys_concat(a: Seq<Seq<char>>, b: Seq<Seq<char>>)
    ensures
        distinct_from(distinct_keys(a), b) == distinct_keys(a + b),
    decreases b.len(),
{
    if b.len() == 0 {
        assert(a + b =~= a);
    } else {
        lemma_distinct_keys_concat(a, b.drop_last());
        assert((a + b).drop_last() =~= a + b.drop_last());
        assert((a + b).last() == b.last());
    }
}

proof fn lemma_distinct_keys_subset(ks: Seq<Seq<char>>, x: Seq<char>)
    requires
        distinct_keys(ks).contains(x),
    ensures
        ks.contains(x),
    decreases ks.len(),
{
    if ks.len() > 0 {
        let d = distinct_keys(ks.drop_last());
        if d.contains(x) {
            lemma_distinct_keys_subset(ks.drop_last(), x);
            let k = choose|k: int| 0 <= k < ks.drop_last().len() && ks.drop_last()[k] == x;
            assert(ks[k] == x);
        } else {
            assert(x == ks.last());
            assert(ks[ks.len() - 1] == x);
        }
    }
}

proof fn lemma_key_in_layer(l: LayerView, key: Seq<char>)
    requires
        layer_keys(l).contains(key),
    ensures
        layer_get(l, key) is Some,
{
    lemma_first_match_found(layer_keys(l), key);
}

proof fn lemma_has_key_has_value(ls: LayersView, key: Seq<char>)
    requires
        (layer_keys(ls.defaults) + layer_keys(ls.global_user) + layer_keys(ls.workspace_user)
            + layer_keys(ls.project_shared)).contains(key),
    ensures
        effective_value(ls, key) is Some,
{
    let a = layer_keys(ls.defaults);
    let b = layer_keys(ls.global_user);
    let c = layer_keys(ls.workspace_user);
    let d = layer_keys(ls.project_shared);
    let all = a + b + c + d;
    let k = choose|k: int| 0 <= k < all.len() && all[k] == key;
    if k < a.len() {
        assert(a[k] == key);
        lemma_key_in_layer(ls.defaults, key);
    } else if k < a.len() + b.len() {
        assert(b[k - a.len()] == key);
        lemma_key_in_layer(ls.global_user, key);
    } else if k < a.len() + b.len() + c.len() {
        assert(c[k - a.len() - b.len()] == key);
        lemma_key_in_layer(ls.workspace_user, key);
    } else {
        assert(d[k - a.len() - b.len() - c.len()] == key);
        lemma_key_in_layer(ls.project_shared, key);
    }
}

/// A key set in project-shared configuration is effective whatever the
/// other layers say; a key set in exactly one layer takes its value from it.
pub proof fn project_shared_wins(ls: LayersView, key: Seq<char>, value: Seq<char>)
    ensures
        effective_value(layers_set(ls, SettingsSource::ProjectShared, key, value), key) == Some(
            SettingValueView { value, source: SettingsSource::ProjectShared },
        ),
{
    lemma_set_then_get(ls.project_shared, key, value);
}

/// A value set in a layer reads back from that layer.
pub proof fn lemma_set_then_get(l: LayerView, key: Seq<char>, value: Seq<char>)
    ensures
        layer_get(layer_set(l, key, value), key) == Some(value),
{
    let keys = layer_keys(l);
    let k = first_match(keys, key);
    lemma_first_match_found(keys, key);
    let t = layer_set(l, key, value);
    if k < l.len() {
        assert(layer_keys(t) =~= keys.update(k, key));
        assert forall|j: int| 0 <= j < k implies layer_keys(t)[j] != key by {
            crate::text::lemma_first_match_before(keys, key, j);
        }
        lemma_first_match_is(layer_keys(t), key, k);
    } else {
        assert(layer_keys(t) =~= keys.push(key));
        assert forall|j: int| 0 <= j < l.len() implies layer_keys(t)[j] != key by {
            assert(layer_keys(t)[j] == keys[j]);
            if keys[j] == key {
                assert(keys.contains(key));
            }
        }
        lemma_first_match_is(layer_keys(t), key, l.len() as int);
    }
}

/// Setting another key leaves a key's value in a layer as it was.
pub proof fn lemma_set_other_keeps(l: LayerView, k2: Seq<char>, v2: Seq<char>, key: Seq<char>)
    requires
        key != k2,
    ensures
        layer_get(layer_set(l, k2, v2), key) == layer_get(l, key),
{
    let keys = layer_keys(l);
    let k = first_match(keys, k2);
    lemma_first_match_found(keys, k2);
    lemma_first_match_found(keys, key);
    let m = first_match(keys, key);
    let t = layer_set(l, k2, v2);
    if k < l.len() {
        assert(layer_keys(t) =~= keys);
        if m < l.len() {
            assert(m != k);
            assert(t[m] == l[m]);
        }
    } else {
        assert(layer_keys(t) =~= keys.push(k2));
        if m < l.len() {
            assert forall|j: int| 0 <= j < m implies layer_keys(t)[j] != key by {
                crate::text::lemma_first_match_before(keys, key, j);
                assert(layer_keys(t)[j] == keys[j]);
            }
            assert(layer_keys(t)[m] == keys[m]);
            lemma_first_match_is(layer_keys(t), key, m);
        } else {
            assert forall|j: int| 0 <= j < t.len() implies layer_keys(t)[j] != key by {
                if j < l.len() {
                    assert(layer_keys(t)[j] == keys[j]);
                    if keys[j] == key {
                        assert(keys.contains(key));
                    }
                }
            }
            lemma_first_match_is(layer_keys(t), key, t.len() as int);
        }
    }
}

/// Four empty layers.
pub open spec fn empty_layers() -> LayersView {
    LayersView { defaults: seq![], global_user: seq![], workspace_user: seq![], project_shared: seq![] }
}

/// The layers after the calls `set(source, key, value)` of `h`, in order,
/// on a new store.
pub open spec fn after_sets(h: Seq<(SettingsSource, Seq<char>, Seq<char>)>) -> LayersView
    decreases h.len(),
{
    if h.len() == 0 {
        empty_layers()
    } else {
        layers_set(after_sets(h.drop_last()), h.last().0, h.last().1, h.last().2)
    }
}

/// The value given by the last call of `h` that set `key` in layer `src`.
pub open spec fn last_set(h: Seq<(SettingsSource, Seq<char>, Seq<char>)>, src: SettingsSource, key: Seq<
    char,
>) -> Option<Seq<char>>
    decreases h.len(),
{
    if h.len() == 0 {
        None
    } else if h.last().0 == src && h.last().1 == key {
        Some(h.last().2)
    } else {
        last_set(h.drop_last(), src, key)
    }
}

/// The layer `src` of `ls`.
pub open spec fn layer_in(ls: LayersView, src: SettingsSource) -> LayerView {
    match src {
        SettingsSource::Defaults => ls.defaults,
        SettingsSource::GlobalUser => ls.global_user,
        SettingsSource::WorkspaceUser => ls.workspace_user,
        SettingsSource::ProjectShared => ls.project_shared,
    }
}

/// After any history of `set` calls on a new store, each layer holds for a
/// key the value of the last call that set it there.
pub proof fn layers_hold_last_set(h: Seq<(SettingsSource, Seq<char>, Seq<char>)>, src: SettingsSource, key: Seq<
    char,
>)
    ensures
        layer_get(layer_in(after_sets(h), src), key) == last_set(h, src, key),
    decreases h.len(),
{
    if h.len() == 0 {
        assert(layer_keys(seq![]) =~= Seq::<Seq<char>>::empty());
        lemma_first_match_found(layer_keys(seq![]), key);
    } else {
        layers_hold_last_set(h.drop_last(), src, key);
        let prev = after_sets(h.drop_last());
        let c = h.last();
        if c.0 == src {
            if c.1 == key {
                lemma_set_then_get(layer_in(prev, src), key, c.2);
            } else {
                lemma_set_other_keeps(layer_in(prev, src), c.1, c.2, key);
            }
        }
    }
}

/// The setting `get(key)` answers after the history `h` of `set` calls on a
/// new store: the value of the last call that set `key` in the first of
/// project-shared, workspace user, global user and defaults where some
/// call set it, with that layer as its source; `None` when no call set it.
pub open spec fn history_value(h: Seq<(SettingsSource, Seq<char>, Seq<char>)>, key: Seq<char>) -> Option<
    SettingValueView,
> {
    if let Some(v) = last_set(h, SettingsSource::ProjectShared, key) {
        Some(SettingValueView { value: v, source: SettingsSource::ProjectShared })
    } else if let Some(v) = last_set(h, SettingsSource::WorkspaceUser, key) {
        Some(SettingValueView { value: v, source: SettingsSource::WorkspaceUser })
    } else if let Some(v) = last_set(h, SettingsSource::GlobalUser, key) {
        Some(SettingValueView { value: v, source: SettingsSource::GlobalUser })
    } else if let Some(v) = last_set(h, SettingsSource::Defaults, key) {
        Some(SettingValueView { value: v, source: SettingsSource::Defaults })
    } else {
        None
    }
}

/// After any history of `set` calls on a new store, the effective value of
/// every key, which `get` returns, is `history_value`: the last value set
/// in the highest-priority layer that was set, and nothing exactly for a
/// key that no call set.
pub proof fn effective_follows_history(h: Seq<(SettingsSource, Seq<char>, Seq<char>)>, key: Seq<char>)
    ensures
        effective_value(after_sets(h), key) == history_value(h, key),
        history_value(h, key) is None <==> !exists|i: int| 0 <= i < h.len() && #[trigger] h[i].1 == key,
{
    layers_hold_last_set(h, SettingsSource::ProjectShared, key);
    layers_hold_last_set(h, SettingsSource::WorkspaceUser, key);
    layers_hold_last_set(h, SettingsSource::GlobalUser, key);
    layers_hold_last_set(h, SettingsSource::Defaults, key);
    lemma_last_set_some(h, SettingsSource::Defaults, key);
    lemma_last_set_some(h, SettingsSource::GlobalUser, key);
    lemma_last_set_some(h, SettingsSource::WorkspaceUser, key);
    lemma_last_set_some(h, SettingsSource::ProjectShared, key);
    if exists|i: int| 0 <= i < h.len() && #[trigger] h[i].1 == key {
        let i = choose|i: int| 0 <= i < h.len() && #[trigger] h[i].1 == key;
        match h[i].0 {
            SettingsSource::Defaults => {},
            SettingsSource::GlobalUser => {},
            SettingsSource::WorkspaceUser => {},
            SettingsSource::ProjectShared => {},
        }
    }
}

proof fn lemma_distinct_keys_complete(ks: Seq<Seq<char>>, x: Seq<char>)
    ensures
        distinct_keys(ks).contains(x) <==> ks.contains(x),
        distinct_keys(ks).no_duplicates(),
    decreases ks.len(),
{
    if ks.len() > 0 {
        let init = ks.drop_last();
        lemma_distinct_keys_complete(init, x);
        lemma_distinct_keys_complete(init, ks.last());
        let d = distinct_keys(init);
        let l = ks.last();
        assert(ks[ks.len() - 1] == l);
        if !d.contains(l) {
            let e = d.push(l);
            assert(e[d.len() as int] == l);
            if d.contains(x) {
                let j = choose|j: int| 0 <= j < d.len() && d[j] == x;
                assert(e[j] == x);
            }
            if e.contains(x) && x != l {
                let j = choose|j: int| 0 <= j < e.len() && e[j] == x;
                assert(d[j] == x);
            }
        }
        if ks.contains(x) && !init.contains(x) {
            let j = choose|j: int| 0 <= j < ks.len() && ks[j] == x;
            if j < init.len() {
                assert(init[j] == x);
            }
        }
        if init.contains(x) {
            let j = choose|j: int| 0 <= j < init.len() && init[j] == x;
            assert(ks[j] == x);
        }
        if !d.contains(ks.last()) {
            assert forall|a: int, b: int| 0 <= a < b < d.push(ks.last()).len() implies d.push(
                ks.last(),
            )[a] != d.push(ks.last())[b] by {
                if b == d.len() {
                    assert(d[a] == d.push(ks.last())[a]);
                }
            }
        }
    }
}

proof fn lemma_layer_has_key(l: LayerView, key: Seq<char>)
    ensures
        layer_keys(l).contains(key) <==> layer_get(l, key) is Some,
{
    lemma_first_match_found(layer_keys(l), key);
}

proof fn lemma_last_set_some(h: Seq<(SettingsSource, Seq<char>, Seq<char>)>, src: SettingsSource, key: Seq<
    char,
>)
    ensures
        last_set(h, src, key) is Some <==> exists|i: int| 0 <= i < h.len() && #[trigger] h[i].0 == src && h[i].1 == key,
    decreases h.len(),
{
    if h.len() > 0 {
        let init = h.drop_last();
        lemma_last_set_some(init, src, key);
        if exists|i: int| 0 <= i < h.len() && #[trigger] h[i].0 == src && h[i].1 == key {
            let i = choose|i: int| 0 <= i < h.len() && #[trigger] h[i].0 == src && h[i].1 == key;
            if i < init.len() {
                assert(init[i] == h[i]);
            }
        }
        if exists|i: int| 0 <= i < init.len() && #[trigger] init[i].0 == src && init[i].1 == key {
            let i = choose|i: int| 0 <= i < init.len() && #[trigger] init[i].0 == src && init[i].1 == key;
            assert(h[i] == init[i]);
        }
    }
}

/// After any history of `set` calls on a new store, `effective` lists each
/// key some call set exactly once, and no other key, each with the setting
/// `get` gives for it.
pub proof fn effective_lists_each_set_key_once(h: Seq<(SettingsSource, Seq<char>, Seq<char>)>, key: Seq<
    char,
>)
    ensures
        all_keys(after_sets(h)).no_duplicates(),
        all_keys(after_sets(h)).contains(key) <==> exists|i: int| 0 <= i < h.len() && #[trigger] h[i].1 == key,
        all_keys(after_sets(h)).contains(key) ==> effective_value(after_sets(h), key) == history_value(h, key)
            && history_value(h, key) is Some,
{
    effective_follows_history(h, key);
    let ls = after_sets(h);
    let a = layer_keys(ls.defaults);
    let b = layer_keys(ls.global_user);
    let c = layer_keys(ls.workspace_user);
    let d = layer_keys(ls.project_shared);
    let all = a + b + c + d;
    lemma_distinct_keys_complete(all, key);
    lemma_layer_has_key(ls.defaults, key);
    lemma_layer_has_key(ls.global_user, key);
    lemma_layer_has_key(ls.workspace_user, key);
    lemma_layer_has_key(ls.project_shared, key);
    layers_hold_last_set(h, SettingsSource::Defaults, key);
    layers_hold_last_set(h, SettingsSource::GlobalUser, key);
    layers_hold_last_set(h, SettingsSource::WorkspaceUser, key);
    layers_hold_last_set(h, SettingsSource::ProjectShared, key);
    lemma_last_set_some(h, SettingsSource::Defaults, key);
    lemma_last_set_some(h, SettingsSource::GlobalUser, key);
    lemma_last_set_some(h, SettingsSource::WorkspaceUser, key);
    lemma_last_set_some(h, SettingsSource::ProjectShared, key);
    if all.contains(key) {
        let k = choose|k: int| 0 <= k < all.len() && all[k] == key;
        if k < a.len() {
            assert(a[k] == key);
        } else if k < a.len() + b.len() {
            assert(b[k - a.len()] == key);
        } else if k < a.len() + b.len() + c.len() {
            assert(c[k - a.len() - b.len()] == key);
        } else {
            assert(d[k - a.len() - b.len() - c.len()] == key);
        }
    }
    if exists|i: int| 0 <= i < h.len() && #[trigger] h[i].1 == key {
        let i = choose|i: int| 0 <= i < h.len() && #[trigger] h[i].1 == key;
        let src = h[i].0;
        match src {
            SettingsSource::Defaults => {
                let j = choose|j: int| 0 <= j < a.len() && a[j] == key;
                assert(all[j] == key);
            },
            SettingsSource::GlobalUser => {
                let j = choose|j: int| 0 <= j < b.len() && b[j] == key;
                assert(all[a.len() + j] == key);
            },
            SettingsSource::WorkspaceUser => {
                let j = choose|j: int| 0 <= j < c.len() && c[j] == key;
                assert(all[a.len() + b.len() + j] == key);
            },
            SettingsSource::ProjectShared => {
                let j = choose|j: int| 0 <= j < d.len() && d[j] == key;
                assert(all[a.len() + b.len() + c.len() + j] == key);
            },
        }
    }
}

} // verus!
