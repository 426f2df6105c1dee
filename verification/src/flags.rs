//! Feature flags: internal flags may gate unfinished functionality; release
//! builds expose only experimental and stable flags.

use vstd::prelude::*;
use crate::text::{copy_string, first_match, lemma_first_match_is, owned};

verus! {

/// Who may see a flag.
#[derive(Debug, Clone, Copy, PartialEq, Eq, Structural)]
pub enum FlagVisibility {
    Internal,
    Experimental,
    Stable,
}

/// A feature flag.
#[derive(Debug, Clone)]
pub struct FeatureFlag {
    pub key: String,
    pub enabled: bool,
    pub visibility: FlagVisibility,
    pub description: String,
}

pub struct FeatureFlagView {
    pub key: Seq<char>,
    pub enabled: bool,
    pub visibility: FlagVisibility,
    pub description: Seq<char>,
}

impl View for FeatureFlag {
    type V = FeatureFlagView;

    open spec fn view(&self) -> FeatureFlagView {
        FeatureFlagView {
            key: self.key@,
            enabled: self.enabled,
            visibility: self.visibility,
            description: self.description@,
        }
    }
}

impl FeatureFlag {
    fn duplicate(&self) -> (r: Self)
        ensures
            r@ == self@,
    {
        FeatureFlag {
            key: copy_string(&self.key),
            enabled: self.enabled,
            visibility: self.visibility,
            description: copy_string(&self.description),
        }
    }
}

pub open spec fn flags_view(s: Seq<FeatureFlag>) -> Seq<FeatureFlagView> {
    s.map_values(|f: FeatureFlag| f@)
}

pub open spec fn flag_keys(s: Seq<FeatureFlagView>) -> Seq<Seq<char>> {
    s.map_values(|f: FeatureFlagView| f.key)
}

/// The flags after registering `f`: it replaces the flag with its key, or
/// is appended.
pub open spec fn upsert_flag(s: Seq<FeatureFlagView>, f: FeatureFlagView) -> Seq<FeatureFlagView> {
    let k = first_match(flag_keys(s), f.key);
    if k < s.len() {
        s.update(k, f)
    } else {
        s.push(f)
    }
}

/// Whether the flag `key` is registered and enabled.
pub open spec fn flag_enabled(s: Seq<FeatureFlagView>, key: Seq<char>) -> bool {
    let k = first_match(flag_keys(s), key);
    k < s.len() && s[k].enabled
}

/// The flags after switching the flag `key` on or off; unchanged when no
/// such flag is registered.
pub open spec fn set_flag(s: Seq<FeatureFlagView>, key: Seq<char>, enabled: bool) -> Seq<
    FeatureFlagView,
> {
    let k = first_match(flag_keys(s), key);
    if k < s.len() {
        s.update(k, FeatureFlagView { enabled, ..s[k] })
    } else {
        s
    }
}

/// Whether a flag is shown in a build: release builds hide internal flags.
pub open spec fn is_exposed(f: FeatureFlagView, is_release: bool) -> bool {
    !is_release || f.visibility != FlagVisibility::Internal
}

/// Registered feature flags.
pub struct FlagRegistry {
    flags: Vec<FeatureFlag>,
}

impl FlagRegistry {
    /// The registered flags, in registration order.
    pub closed spec fn entries(self) -> Seq<FeatureFlagView> {
        flags_view(self.flags@)
    }

    pub fn new() -> (r: Self)
        ensures
            r.entries() == Seq::<FeatureFlagView>::empty(),
    {
        let r = FlagRegistry { flags: Vec::new() };
        assert(r.entries() =~= Seq::<FeatureFlagView>::empty());
        r
    }

    fn find(&self, key: &str) -> (r: usize)
        ensures
            r as int == first_match(flag_keys(self.entries()), key@),
    {
        let target = owned(key);
        let ghost keys = flag_keys(self.entries());
        let mut i: usize = 0;
        while i < self.flags.len()
            invariant
                i <= self.flags@.len(),
                target@ == key@,
                keys == flag_keys(self.entries()),
                forall|j: int| 0 <= j < i ==> keys[j] != key@,
            decreases self.flags.len() - i,
        {
            assert(keys[i as int] == self.flags@[i as int].key@);
            if self.flags[i].key == target {
                proof {
                    lemma_first_match_is(keys, key@, i as int);
                }
                return i;
            }
            i = i + 1;
        }
        proof {
            lemma_first_match_is(keys, key@, i as int);
        }
        i
    }

    /// Registers a flag, replacing any flag with the same key.
    pub fn register(
        &mut self,
        key: &str,
        enabled: bool,
        visibility: FlagVisibility,
        description: &str,
    )
        ensures
            final(self).entries() == upsert_flag(
                old(self).entries(),
                FeatureFlagView { key: key@, enabled, visibility, description: description@ },
            ),
    {
        let k = self.find(key);
        let f = FeatureFlag { key: owned(key), enabled, visibility, description: owned(description) };
        let ghost fv = f@;
        let ghost before = self.entries();
        if k < self.flags.len() {
            self.flags.set(k, f);
            assert(self.entries() =~= before.update(k as int, fv));
        } else {
            self.flags.push(f);
            assert(self.entries() =~= before.push(fv));
        }
    }

    /// Whether the flag `key` is registered and enabled.
    pub fn is_enabled(&self, key: &str) -> (r: bool)
        ensures
            r == flag_enabled(self.entries(), key@),
    {
        let k = self.find(key);
        k < self.flags.len() && self.flags[k].enabled
    }

    /// Switches the flag `key` on or off, when registered.
    pub fn set(&mut self, key: &str, enabled: bool)
        ensures
            final(self).entries() == set_flag(old(self).entries(), key@, enabled),
    {
        let k = self.find(key);
        if k < self.flags.len() {
            let ghost before = self.entries();
            let mut f = self.flags[k].duplicate();
            f.enabled = enabled;
            let ghost fv = f@;
            self.flags.set(k, f);
            assert(self.entries() =~= before.update(k as int, fv));
        }
    }

    /// The flags shown in this build, in registration order: release builds
    /// hide internal flags.
    pub fn exposed(&self, is_release: bool) -> (r: Vec<FeatureFlag>)
        ensures
            flags_view(r@) == self.entries().filter(|f: FeatureFlagView| is_exposed(f, is_release)),
    {
        let ghost es = self.entries();
        let ghost pred = |f: FeatureFlagView| is_exposed(f, is_release);
        let mut out: Vec<FeatureFlag> = Vec::new();
        let mut i: usize = 0;
        assert(es.subrange(0, 0) =~= Seq::<FeatureFlagView>::empty());
        while i < self.flags.len()
            invariant
                i <= self.flags@.len(),
                es == self.entries(),
                pred == (|f: FeatureFlagView| is_exposed(f, is_release)),
                flags_view(out@) == es.subrange(0, i as int).filter(pred),
            decreases self.flags.len() - i,
        {
            let f = &self.flags[i];
            let ghost before = flags_view(out@);
            proof {
                assert(es.subrange(0, i + 1) =~= es.subrange(0, i as int).push(f@));
                es.subrange(0, i as int).lemma_filter_push(f@, pred);
            }
            if !is_release || f.visibility != FlagVisibility::Internal {
                let g = f.duplicate();
                out.push(g);
                assert(flags_view(out@) =~= before.push(f@));
            }
            i = i + 1;
        }
        assert(es.subrange(0, i as int) =~= es);
        out
    }
}

/// A registered flag reads back as registered: after registering `key` as
/// enabled (or not), `is_enabled(key)` answers exactly that.
pub proof fn register_then_read(s: Seq<FeatureFlagView>, f: FeatureFlagView)
    ensures
        flag_enabled(upsert_flag(s, f), f.key) == f.enabled,
{
    let keys = flag_keys(s);
    let k = first_match(keys, f.key);
    crate::text::lemma_first_match_found(keys, f.key);
    let t = upsert_flag(s, f);
    if k < s.len() {
        assert(flag_keys(t) =~= keys.update(k, f.key));
        assert forall|j: int| 0 <= j < k implies flag_keys(t)[j] != f.key by {
            crate::text::lemma_first_match_before(keys, f.key, j);
        }
        lemma_first_match_is(flag_keys(t), f.key, k);
    } else {
        assert(flag_keys(t) =~= keys.push(f.key));
        assert forall|j: int| 0 <= j < s.len() implies flag_keys(t)[j] != f.key by {
            assert(flag_keys(t)[j] == keys[j]);
            if keys[j] == f.key {
                assert(keys.contains(f.key));
            }
        }
        lemma_first_match_is(flag_keys(t), f.key, s.len() as int);
    }
}

/// Switching a registered flag reads back: after `set(key, e)`,
/// `is_enabled(key)` answers `e`; an unregistered key stays disabled.
pub proof fn set_then_read(s: Seq<FeatureFlagView>, key: Seq<char>, enabled: bool)
    ensures
        flag_enabled(set_flag(s, key, enabled), key) == (first_match(flag_keys(s), key) < s.len()
            && enabled),
{
    let keys = flag_keys(s);
    let k = first_match(keys, key);
    crate::text::lemma_first_match_found(keys, key);
    let t = set_flag(s, key, enabled);
    if k < s.len() {
        assert(flag_keys(t) =~= keys);
    } else {
        assert(t == s);
    }
}

/// Release builds never expose an internal flag.
pub proof fn release_hides_internal(s: Seq<FeatureFlagView>, i: int)
    requires
        0 <= i < s.filter(|f: FeatureFlagView| is_exposed(f, true)).len(),
    ensures
        s.filter(|f: FeatureFlagView| is_exposed(f, true))[i].visibility != FlagVisibility::Internal,
{
    s.lemma_filter_pred(|f: FeatureFlagView| is_exposed(f, true), i);
}

} // verus!
