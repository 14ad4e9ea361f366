//! Playing the peer's keyboard on this machine.
//!
//! The peer sends keys as they are on its own keyboard. Shortcuts are translated
//! to this system, and the modifiers that this system sees are brought in line
//! with what the translated shortcut needs before the key itself is played.

use vstd::prelude::*;

use crate::key_table::KeyTable;
use crate::keys::{
    exchanged_modifiers, held, holds, mac_stroke, map_modifiers, modifier_key,
    translate_macos_shortcut_to_windows, translate_windows_shortcut_to_mac, windows_stroke,
    with_key, Key, ModifierState, NativeShortcut, ShortcutStroke,
};

verus! {

/// A modifier goes down or up; `modifiers` are those held afterwards.
#[derive(Debug, Clone, Copy, PartialEq, Eq, Structural)]
pub struct ModifierChange {
    pub key: Key,
    pub down: bool,
    pub modifiers: ModifierState,
}

/// Changes that were made, and the modifiers held after them.
pub struct Played {
    pub changes: Seq<ModifierChange>,
    pub modifiers: ModifierState,
}

impl Played {
    /// One more change to `key`, where it goes `down` (or up) and is not yet as
    /// `wanted`.
    pub open spec fn step(self, key: Key, wanted: ModifierState, down: bool) -> Self {
        if holds(self.modifiers, key) != holds(wanted, key) && holds(wanted, key) == down {
            let modifiers = with_key(self.modifiers, key, down);
            Played { changes: self.changes.push(ModifierChange { key, down, modifiers }), modifiers }
        } else {
            self
        }
    }

    /// What is not wanted is released, the Windows key or Command first.
    pub open spec fn release(self, wanted: ModifierState) -> Self {
        self.step(Key::Super, wanted, false).step(Key::Alt, wanted, false).step(
            Key::Ctrl,
            wanted,
            false,
        ).step(Key::Shift, wanted, false)
    }

    /// What is wanted is pressed, the Windows key or Command last.
    pub open spec fn press(self, wanted: ModifierState) -> Self {
        self.step(Key::Ctrl, wanted, true).step(Key::Alt, wanted, true).step(
            Key::Shift,
            wanted,
            true,
        ).step(Key::Super, wanted, true)
    }
}

/// The changes that lead from `m` to `wanted`: releases, then presses.
pub open spec fn changes(m: ModifierState, wanted: ModifierState) -> Seq<ModifierChange> {
    Played { changes: Seq::empty(), modifiers: m }.release(wanted).press(wanted).changes
}

/// The modifiers after some changes.
pub open spec fn changed(m: ModifierState, cs: Seq<ModifierChange>) -> ModifierState
    decreases cs.len(),
{
    if cs.len() == 0 {
        m
    } else {
        with_key(changed(m, cs.drop_last()), cs.last().key, cs.last().down)
    }
}

fn is_held(m: ModifierState, key: Key) -> (r: bool)
    ensures
        r == holds(m, key),
{
    match key {
        Key::Ctrl => m.ctrl,
        Key::Alt => m.alt,
        Key::Shift => m.shift,
        Key::Super => m.super_key,
        _ => false,
    }
}

fn play_step(
    out: &mut Vec<ModifierChange>,
    m: &mut ModifierState,
    key: Key,
    wanted: ModifierState,
    down: bool,
)
    ensures
        ({
            let before = Played { changes: old(out)@, modifiers: *old(m) };
            let after = Played { changes: final(out)@, modifiers: *final(m) };
            after == before.step(key, wanted, down)
        }),
{
    let should = is_held(wanted, key);
    if is_held(*m, key) != should && should == down {
        let _ = m.set(key, down);
        out.push(ModifierChange { key, down, modifiers: *m });
    }
}

/// The changes that lead from the modifiers `m` to `wanted`.
pub fn modifier_changes(m: ModifierState, wanted: ModifierState) -> (cs: Vec<ModifierChange>)
    ensures
        cs@ == changes(m, wanted),
{
    let mut out: Vec<ModifierChange> = Vec::new();
    let mut next = m;
    play_step(&mut out, &mut next, Key::Super, wanted, false);
    play_step(&mut out, &mut next, Key::Alt, wanted, false);
    play_step(&mut out, &mut next, Key::Ctrl, wanted, false);
    play_step(&mut out, &mut next, Key::Shift, wanted, false);
    play_step(&mut out, &mut next, Key::Ctrl, wanted, true);
    play_step(&mut out, &mut next, Key::Alt, wanted, true);
    play_step(&mut out, &mut next, Key::Shift, wanted, true);
    play_step(&mut out, &mut next, Key::Super, wanted, true);
    out
}

/// Whether every change says what is held after it.
pub open spec fn truthful(m: ModifierState, cs: Seq<ModifierChange>) -> bool {
    forall|i: int|
        0 <= i < cs.len() ==> (#[trigger] cs[i]).modifiers == changed(m, cs.take(i + 1))
}

proof fn lemma_step(m: ModifierState, p: Played, key: Key, wanted: ModifierState, down: bool)
    requires
        changed(m, p.changes) == p.modifiers,
        truthful(m, p.changes),
    ensures
        changed(m, p.step(key, wanted, down).changes) == p.step(key, wanted, down).modifiers,
        truthful(m, p.step(key, wanted, down).changes),
{
    let q = p.step(key, wanted, down);
    if q.changes != p.changes {
        assert(q.changes.drop_last() =~= p.changes);
        assert forall|i: int| 0 <= i < q.changes.len() implies (#[trigger] q.changes[i]).modifiers
            == changed(m, q.changes.take(i + 1)) by {
            if i < p.changes.len() {
                assert(q.changes.take(i + 1) =~= p.changes.take(i + 1));
                assert(p.changes[i].modifiers == changed(m, p.changes.take(i + 1)));
            } else {
                assert(q.changes.take(i + 1) =~= q.changes);
            }
        }
    }
}

/// Playing the changes leads exactly to the wanted modifiers, every change says
/// what is held after it, and modifiers that are as wanted need no change.
pub proof fn law_changes_lead_to_the_wanted_modifiers(m: ModifierState, wanted: ModifierState)
    ensures
        changed(m, changes(m, wanted)) == wanted,
        truthful(m, changes(m, wanted)),
        changes(m, m) == Seq::<ModifierChange>::empty(),
{
    let p0 = Played { changes: Seq::empty(), modifiers: m };
    lemma_step(m, p0, Key::Super, wanted, false);
    let p1 = p0.step(Key::Super, wanted, false);
    lemma_step(m, p1, Key::Alt, wanted, false);
    let p2 = p1.step(Key::Alt, wanted, false);
    lemma_step(m, p2, Key::Ctrl, wanted, false);
    let p3 = p2.step(Key::Ctrl, wanted, false);
    lemma_step(m, p3, Key::Shift, wanted, false);
    let p4 = p3.step(Key::Shift, wanted, false);
    lemma_step(m, p4, Key::Ctrl, wanted, true);
    let p5 = p4.step(Key::Ctrl, wanted, true);
    lemma_step(m, p5, Key::Alt, wanted, true);
    let p6 = p5.step(Key::Alt, wanted, true);
    lemma_step(m, p6, Key::Shift, wanted, true);
    let p7 = p6.step(Key::Shift, wanted, true);
    lemma_step(m, p7, Key::Super, wanted, true);
    let p8 = p7.step(Key::Super, wanted, true);
    assert(p8.modifiers == wanted);
}

/// What the keyboard that is being played looks like.
pub struct KeyboardView {
    /// The modifiers held on the peer's keyboard.
    pub source: ModifierState,
    /// The modifiers that this system was told are held.
    pub applied: ModifierState,
    /// The keys that are down, with what was played for each.
    pub active: Map<Key, ShortcutStroke>,
}

/// What a shortcut of the peer is on this system.
pub open spec fn translated(target_is_mac: bool, m: ModifierState, key: Key) -> ShortcutStroke {
    if target_is_mac { mac_stroke(m, key) } else { windows_stroke(m, key) }
}

fn translate(target_is_mac: bool, m: ModifierState, key: Key) -> (r: ShortcutStroke)
    ensures
        r == translated(target_is_mac, m, key),
{
    if target_is_mac {
        translate_windows_shortcut_to_mac(m, key)
    } else {
        translate_macos_shortcut_to_windows(m, key)
    }
}

impl KeyboardView {
    pub open spec fn initial() -> Self {
        KeyboardView {
            source: held(false, false, false, false),
            applied: held(false, false, false, false),
            active: Map::empty(),
        }
    }

    /// What is played for a key: what was played when it went down, so that a
    /// modifier that is let go first cannot leave the key stuck.
    pub open spec fn stroke_for(self, target_is_mac: bool, key: Key, down: bool) -> ShortcutStroke {
        if !down && self.active.contains_key(key) {
            self.active[key]
        } else {
            translated(target_is_mac, self.source, key)
        }
    }

    /// The keys that are down after a key.
    pub open spec fn active_after(self, target_is_mac: bool, key: Key, down: bool) -> Map<
        Key,
        ShortcutStroke,
    > {
        if down {
            self.active.insert(key, translated(target_is_mac, self.source, key))
        } else {
            self.active.remove(key)
        }
    }

    /// Whether the modifiers are brought back in line with the peer's after a key
    /// went up.
    pub open spec fn restores(self, target_is_mac: bool, key: Key, down: bool) -> bool {
        !down && translated(target_is_mac, self.source, key) != self.stroke_for(
            target_is_mac,
            key,
            down,
        )
    }

    pub open spec fn after_key(self, target_is_mac: bool, key: Key, down: bool) -> Self {
        if modifier_key(key) {
            let source = with_key(self.source, key, down);
            KeyboardView { source, applied: exchanged_modifiers(source), ..self }
        } else {
            KeyboardView {
                source: self.source,
                applied: if self.restores(target_is_mac, key, down) {
                    exchanged_modifiers(self.source)
                } else {
                    self.stroke_for(target_is_mac, key, down).modifiers
                },
                active: self.active_after(target_is_mac, key, down),
            }
        }
    }

    pub open spec fn key_plan(self, target_is_mac: bool, key: Key, down: bool) -> KeyPlanView {
        if modifier_key(key) {
            KeyPlanView {
                before: changes(
                    self.applied,
                    exchanged_modifiers(with_key(self.source, key, down)),
                ),
                stroke: None,
                after: Seq::empty(),
            }
        } else {
            let stroke = self.stroke_for(target_is_mac, key, down);
            KeyPlanView {
                before: changes(self.applied, stroke.modifiers),
                stroke: Some(stroke),
                after: if self.restores(target_is_mac, key, down) {
                    changes(stroke.modifiers, exchanged_modifiers(self.source))
                } else {
                    Seq::empty()
                },
            }
        }
    }
}

/// What is played for a key: changes of modifiers, the key itself with the
/// modifiers that it needs, and changes of modifiers again.
pub struct KeyPlan {
    pub before: Vec<ModifierChange>,
    pub stroke: Option<ShortcutStroke>,
    pub after: Vec<ModifierChange>,
}

/// What is played for a key.
pub struct KeyPlanView {
    pub before: Seq<ModifierChange>,
    pub stroke: Option<ShortcutStroke>,
    pub after: Seq<ModifierChange>,
}

impl View for KeyPlan {
    type V = KeyPlanView;

    open spec fn view(&self) -> KeyPlanView {
        KeyPlanView { before: self.before@, stroke: self.stroke, after: self.after@ }
    }
}

/// The keyboard that is being played.
pub struct KeyboardState {
    source: ModifierState,
    applied: ModifierState,
    active: KeyTable<ShortcutStroke>,
}

impl View for KeyboardState {
    type V = KeyboardView;

    closed spec fn view(&self) -> KeyboardView {
        KeyboardView { source: self.source, applied: self.applied, active: self.active@ }
    }
}

impl KeyboardState {
    pub closed spec fn wf(&self) -> bool {
        self.active.wf()
    }

    /// No key is down.
    pub fn new() -> (k: Self)
        ensures
            k.wf(),
            k@ == KeyboardView::initial(),
    {
        KeyboardState {
            source: ModifierState::default(),
            applied: ModifierState::default(),
            active: KeyTable::new(),
        }
    }

    /// The modifiers that this system was told are held.
    pub fn applied(&self) -> (m: ModifierState)
        ensures
            m == self@.applied,
    {
        self.applied
    }

    /// Brings the modifiers of this system to `wanted`.
    fn sync(&mut self, wanted: ModifierState) -> (cs: Vec<ModifierChange>)
        requires
            old(self).wf(),
        ensures
            final(self).wf(),
            final(self)@ == (KeyboardView { applied: wanted, ..old(self)@ }),
            cs@ == changes(old(self)@.applied, wanted),
    {
        let cs = modifier_changes(self.applied, wanted);
        self.applied = wanted;
        cs
    }

    /// Brings the modifiers of this system in line with the peer's, as a click or
    /// a turn of the wheel needs it.
    pub fn sync_for_pointer(&mut self, target_is_mac: bool) -> (cs: Vec<ModifierChange>)
        requires
            old(self).wf(),
        ensures
            final(self).wf(),
            final(self)@ == (KeyboardView {
                applied: exchanged_modifiers(old(self)@.source),
                ..old(self)@
            }),
            cs@ == changes(old(self)@.applied, exchanged_modifiers(old(self)@.source)),
    {
        let wanted = map_modifiers(target_is_mac, self.source);
        self.sync(wanted)
    }

    /// Finds what to play for a key, and remembers it while the key is down.
    pub fn prepare_key(&mut self, target_is_mac: bool, key: Key, down: bool) -> (stroke:
        ShortcutStroke)
        requires
            old(self).wf(),
        ensures
            final(self).wf(),
            stroke == old(self)@.stroke_for(target_is_mac, key, down),
            final(self)@ == (KeyboardView {
                active: old(self)@.active_after(target_is_mac, key, down),
                ..old(self)@
            }),
    {
        if down {
            let stroke = translate(target_is_mac, self.source, key);
            self.active.insert(key, stroke);
            stroke
        } else {
            match self.active.remove(key) {
                Some(stroke) => stroke,
                None => translate(target_is_mac, self.source, key),
            }
        }
    }

    /// The peer pressed a key or let it go.
    pub fn on_key(&mut self, target_is_mac: bool, key: Key, down: bool) -> (plan: KeyPlan)
        requires
            old(self).wf(),
        ensures
            final(self).wf(),
            final(self)@ == old(self)@.after_key(target_is_mac, key, down),
            plan@ == old(self)@.key_plan(target_is_mac, key, down),
    {
        if self.source.set(key, down) {
            let before = self.sync_for_pointer(target_is_mac);
            return KeyPlan { before, stroke: None, after: Vec::new() };
        }
        let stroke = self.prepare_key(target_is_mac, key, down);
        let before = self.sync(stroke.modifiers);
        let restore = !down && translate(target_is_mac, self.source, key) != stroke;
        let after = if restore {
            self.sync_for_pointer(target_is_mac)
        } else {
            Vec::new()
        };
        KeyPlan { before, stroke: Some(stroke), after }
    }

    /// A whole shortcut in the terms of this system is played: the changes before
    /// the key, and those after it, which bring the peer's modifiers back.
    pub fn on_shortcut(&mut self, target_is_mac: bool, shortcut: NativeShortcut) -> (plan: (
        Vec<ModifierChange>,
        Vec<ModifierChange>,
    ))
        requires
            old(self).wf(),
        ensures
            final(self).wf(),
            final(self)@ == (KeyboardView {
                applied: exchanged_modifiers(old(self)@.source),
                ..old(self)@
            }),
            plan.0@ == changes(old(self)@.applied, shortcut.modifiers),
            plan.1@ == changes(shortcut.modifiers, exchanged_modifiers(old(self)@.source)),
    {
        let before = self.sync(shortcut.modifiers);
        let after = self.sync_for_pointer(target_is_mac);
        (before, after)
    }

    /// Forgets everything that is down. Returns the keys that were played and are
    /// still down, one for each key of the peer, in no particular order.
    pub fn reset(&mut self) -> (keys: Vec<Key>)
        requires
            old(self).wf(),
        ensures
            final(self).wf(),
            final(self)@ == KeyboardView::initial(),
            released(old(self)@.active, keys@),
    {
        let names = self.active.keys();
        let n: usize = names.len();
        let mut keys: Vec<Key> = Vec::new();
        let mut i: usize = 0;
        let ghost active = self.active@;
        while i < n
            invariant
                self.wf(),
                self.active@ == active,
                n == names@.len(),
                i <= n,
                names@.no_duplicates(),
                names@.to_set() == active.dom(),
                keys@.len() == i,
                forall|j: int| 0 <= j < i ==> #[trigger] keys@[j] == active[names@[j]].key,
            decreases n - i,
        {
            proof {
                assert(names@.to_set().contains(names@[i as int]));
            }
            match self.active.get(names[i]) {
                Some(stroke) => {
                    keys.push(stroke.key);
                },
                None => {},
            }
            i += 1;
        }
        proof {
            let listing = names@;
            assert(keys@ =~= listing.map_values(|k: Key| active[k].key));
            assert(is_key_listing(listing, active.dom()));
        }
        self.source = ModifierState::default();
        self.applied = ModifierState::default();
        self.active = KeyTable::new();
        keys
    }
}

/// Whether `names` lists the members of `set`, each once.
pub open spec fn is_key_listing(names: Seq<Key>, set: Set<Key>) -> bool {
    names.no_duplicates() && names.to_set() == set
}

/// Whether `keys` are what was played for the keys in `active`, in some order.
pub open spec fn released(active: Map<Key, ShortcutStroke>, keys: Seq<Key>) -> bool {
    exists|names: Seq<Key>| #[trigger]
        is_key_listing(names, active.dom()) && keys == names.map_values(|k: Key| active[k].key)
}

/// A key goes up as the same key that went down, whatever happened to the
/// modifiers in between.
pub proof fn law_key_goes_up_as_it_went_down(
    k: KeyboardView,
    target_is_mac: bool,
    key: Key,
    modifier: Key,
    modifier_down: bool,
)
    requires
        !modifier_key(key),
        modifier_key(modifier),
    ensures
        ({
            let pressed = k.after_key(target_is_mac, key, true);
            let meanwhile = pressed.after_key(target_is_mac, modifier, modifier_down);
            &&& meanwhile.key_plan(target_is_mac, key, false).stroke == k.key_plan(
                target_is_mac,
                key,
                true,
            ).stroke
            &&& !meanwhile.after_key(target_is_mac, key, false).active.contains_key(key)
        }),
{
}

/// Every modifier key brings the modifiers of this system in line with the
/// peer's, and so does letting go of a key that would be played differently by
/// now.
pub proof fn law_modifiers_are_restored(
    k: KeyboardView,
    target_is_mac: bool,
    key: Key,
    modifier: Key,
    modifier_down: bool,
)
    requires
        !modifier_key(key),
        modifier_key(modifier),
    ensures
        k.after_key(target_is_mac, modifier, modifier_down).applied == exchanged_modifiers(
            k.after_key(target_is_mac, modifier, modifier_down).source,
        ),
        ({
            let up = k.after_key(target_is_mac, key, true).after_key(
                target_is_mac,
                modifier,
                modifier_down,
            ).after_key(target_is_mac, key, false);
            k.stroke_for(target_is_mac, key, true) != translated(
                target_is_mac,
                with_key(k.source, modifier, modifier_down),
                key,
            ) ==> up.applied == exchanged_modifiers(up.source)
        }),
{
}

/// What is to be let go is let go before anything is pressed: the Windows key or Command
/// first, then Alt, Ctrl and Shift. Presses go in the order Ctrl, Alt, Shift and the
/// Windows key or Command. Only modifiers change.
pub proof fn law_modifiers_change_in_order(m: ModifierState, wanted: ModifierState, i: int, j: int)
    requires
        0 <= i < j < changes(m, wanted).len(),
    ensures
        ({
            let a = changes(m, wanted)[i];
            let b = changes(m, wanted)[j];
            &&& a.down ==> b.down
            &&& !a.down && !b.down ==> {
                ||| a.key == Key::Super && (b.key == Key::Alt || b.key == Key::Ctrl || b.key
                    == Key::Shift)
                ||| a.key == Key::Alt && (b.key == Key::Ctrl || b.key == Key::Shift)
                ||| a.key == Key::Ctrl && b.key == Key::Shift
            }
            &&& a.down && b.down ==> {
                ||| a.key == Key::Ctrl && (b.key == Key::Alt || b.key == Key::Shift || b.key
                    == Key::Super)
                ||| a.key == Key::Alt && (b.key == Key::Shift || b.key == Key::Super)
                ||| a.key == Key::Shift && b.key == Key::Super
            }
        }),
{
}

/// A change lets go of what is held and not wanted, or presses what is wanted and not
/// held.
pub proof fn law_only_what_differs_is_changed(m: ModifierState, wanted: ModifierState, i: int)
    requires
        0 <= i < changes(m, wanted).len(),
    ensures
        ({
            let c = changes(m, wanted)[i];
            &&& c.key == Key::Ctrl ==> c.down == wanted.ctrl && m.ctrl != wanted.ctrl
            &&& c.key == Key::Alt ==> c.down == wanted.alt && m.alt != wanted.alt
            &&& c.key == Key::Shift ==> c.down == wanted.shift && m.shift != wanted.shift
            &&& c.key == Key::Super ==> c.down == wanted.super_key && m.super_key
                != wanted.super_key
            &&& c.key == Key::Ctrl || c.key == Key::Alt || c.key == Key::Shift || c.key
                == Key::Super
        }),
{
}

/// A key that goes down is played as the shortcut that it is on this system with the
/// modifiers held on the peer's keyboard, and remembered as such. The modifiers of this
/// system are first brought to those that the shortcut needs, and stay there.
pub proof fn law_what_pressing_a_key_does(k: KeyboardView, target_is_mac: bool, key: Key)
    requires
        !modifier_key(key),
    ensures
        ({
            let stroke = if target_is_mac {
                mac_stroke(k.source, key)
            } else {
                windows_stroke(k.source, key)
            };
            let plan = k.key_plan(target_is_mac, key, true);
            let after = k.after_key(target_is_mac, key, true);
            &&& plan.stroke == Some(stroke)
            &&& plan.before == changes(k.applied, stroke.modifiers)
            &&& plan.after.len() == 0
            &&& after.applied == stroke.modifiers
            &&& after.source == k.source
            &&& after.active == k.active.insert(key, stroke)
        }),
{
}

/// A key that goes up is played as it went down, with the modifiers that it went down
/// with, and is then forgotten. Where it would be played differently by now, the modifiers
/// are brought back in line with the peer's.
pub proof fn law_what_letting_a_key_go_does(k: KeyboardView, target_is_mac: bool, key: Key)
    requires
        !modifier_key(key),
    ensures
        ({
            let now = if target_is_mac {
                mac_stroke(k.source, key)
            } else {
                windows_stroke(k.source, key)
            };
            let stroke = if k.active.contains_key(key) {
                k.active[key]
            } else {
                now
            };
            let plan = k.key_plan(target_is_mac, key, false);
            let after = k.after_key(target_is_mac, key, false);
            &&& plan.stroke == Some(stroke)
            &&& plan.before == changes(k.applied, stroke.modifiers)
            &&& stroke == now ==> plan.after.len() == 0 && after.applied == stroke.modifiers
            &&& stroke != now ==> plan.after == changes(
                stroke.modifiers,
                exchanged_modifiers(k.source),
            ) && after.applied == exchanged_modifiers(k.source)
            &&& after.source == k.source
            &&& after.active == k.active.remove(key)
        }),
{
}

/// A modifier of the peer is no key by itself: it changes what is held on the peer's
/// keyboard, and the modifiers of this system follow it, with Ctrl and Command exchanged.
pub proof fn law_what_a_modifier_does(k: KeyboardView, target_is_mac: bool, key: Key, down: bool)
    requires
        key == Key::Ctrl || key == Key::Alt || key == Key::Shift || key == Key::Super,
    ensures
        ({
            let plan = k.key_plan(target_is_mac, key, down);
            let after = k.after_key(target_is_mac, key, down);
            &&& plan.stroke is None
            &&& plan.after.len() == 0
            &&& plan.before == changes(k.applied, after.applied)
            &&& after.source == (ModifierState {
                ctrl: if key == Key::Ctrl {
                    down
                } else {
                    k.source.ctrl
                },
                alt: if key == Key::Alt {
                    down
                } else {
                    k.source.alt
                },
                shift: if key == Key::Shift {
                    down
                } else {
                    k.source.shift
                },
                super_key: if key == Key::Super {
                    down
                } else {
                    k.source.super_key
                },
            })
            &&& after.applied.ctrl == after.source.super_key
            &&& after.applied.super_key == after.source.ctrl
            &&& after.applied.alt == after.source.alt
            &&& after.applied.shift == after.source.shift
            &&& after.active == k.active
        }),
{
}

/// Whoever starts has nothing down.
pub proof fn law_nothing_is_down_at_first()
    ensures
        KeyboardView::initial().active.dom() == Set::<Key>::empty(),
        KeyboardView::initial().source == (ModifierState {
            ctrl: false,
            alt: false,
            shift: false,
            super_key: false,
        }),
        KeyboardView::initial().applied == KeyboardView::initial().source,
{
}

/// What is let go of when everything is: one key for each that is down, the one that was
/// played for it.
pub proof fn law_everything_that_is_down_is_released(
    active: Map<Key, ShortcutStroke>,
    keys: Seq<Key>,
    key: Key,
)
    requires
        released(active, keys),
        active.contains_key(key),
    ensures
        keys.contains(active[key].key),
        active.dom().finite() ==> keys.len() == active.dom().len(),
{
    let names = choose|names: Seq<Key>| #[trigger]
        is_key_listing(names, active.dom()) && keys == names.map_values(|k: Key| active[k].key);
    assert(names.to_set().contains(key));
    let i = names.index_of(key);
    assert(keys[i] == active[key].key);
    names.unique_seq_to_set();
}

} // verus!
