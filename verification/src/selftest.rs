//! The self-test: what is captured on this machine is played back on it.

use std::collections::HashMap;
use vstd::prelude::*;

use crate::key_table::KeyTable;
use crate::keys::{char_to_key, key_of_char, modifier_key, Key};
use crate::protocol::Payload;
use crate::text::chars_of;

verus! {

/// One more; a counter that is full starts again.
pub open spec fn one_more(n: u64) -> u64 {
    if n == u64::MAX { 0 } else { (n + 1) as u64 }
}

fn count(n: u64) -> (r: u64)
    ensures
        r == one_more(n),
{
    if n == u64::MAX {
        0
    } else {
        n + 1
    }
}

/// What the self-test has counted.
#[derive(Debug, Clone, Copy, PartialEq, Eq, Structural)]
pub struct SelftestCounters {
    pub captured_mouse: u64,
    pub captured_keys: u64,
    pub injected_ok: u64,
    pub injected_fail: u64,
}

/// What the user is shown of the self-test.
#[derive(Debug, Clone, Copy, PartialEq, Eq, Structural)]
pub struct SelftestStatsView {
    pub enabled: bool,
    pub captured_mouse: u64,
    pub captured_keys: u64,
    pub injected_ok: u64,
    pub injected_fail: u64,
}

/// What the self-test remembers: the keys and buttons that are down, each as it was
/// captured.
pub struct SelftestState {
    pub keys: Map<Key, Payload>,
    pub buttons: Map<u8, Payload>,
    pub counters: SelftestCounters,
}

impl SelftestState {
    pub open spec fn initial() -> Self {
        SelftestState {
            keys: Map::empty(),
            buttons: Map::empty(),
            counters: SelftestCounters {
                captured_mouse: 0,
                captured_keys: 0,
                injected_ok: 0,
                injected_fail: 0,
            },
        }
    }

    /// The counters after an event was captured.
    pub open spec fn counted(self, p: Payload) -> SelftestCounters {
        match p {
            Payload::MouseMove { .. } => SelftestCounters {
                captured_mouse: one_more(self.counters.captured_mouse),
                ..self.counters
            },
            Payload::MouseButton { .. } => SelftestCounters {
                captured_mouse: one_more(self.counters.captured_mouse),
                ..self.counters
            },
            Payload::Key { .. } => SelftestCounters {
                captured_keys: one_more(self.counters.captured_keys),
                ..self.counters
            },
            _ => self.counters,
        }
    }

    pub open spec fn after(self, p: Payload) -> Self {
        let counters = self.counted(p);
        match p {
            Payload::Key { key, down, .. } => SelftestState {
                keys: if down {
                    self.keys.insert(key, p)
                } else {
                    self.keys.remove(key)
                },
                counters,
                ..self
            },
            Payload::MouseButton { button, down } => SelftestState {
                buttons: if down {
                    self.buttons.insert(button, p)
                } else {
                    self.buttons.remove(button)
                },
                counters,
                ..self
            },
            _ => SelftestState { counters, ..self },
        }
    }

    /// Whether a modifier is down.
    pub open spec fn modifier_held(self) -> bool {
        exists|k: Key| #[trigger] self.keys.contains_key(k) && modifier_key(k)
    }

    /// What is played back: a key or click as a whole when it is let go, unless a
    /// modifier is still down; movements not at all; anything else at once.
    pub open spec fn echoes(self, p: Payload) -> Seq<Payload> {
        match p {
            Payload::MouseMove { .. } => Seq::empty(),
            Payload::Key { key, down, .. } => if !down && self.keys.contains_key(key)
                && !self.after(p).modifier_held() {
                seq![self.keys[key], p]
            } else {
                Seq::empty()
            },
            Payload::MouseButton { button, down } => if !down && self.buttons.contains_key(button)
                && !self.after(p).modifier_held() {
                seq![self.buttons[button], p]
            } else {
                Seq::empty()
            },
            _ => seq![p],
        }
    }
}

/// The self-test.
pub struct Selftest {
    keys: KeyTable<Payload>,
    buttons: HashMap<u8, Payload>,
    counters: SelftestCounters,
}

impl View for Selftest {
    type V = SelftestState;

    closed spec fn view(&self) -> SelftestState {
        SelftestState { keys: self.keys@, buttons: self.buttons@, counters: self.counters }
    }
}

impl Selftest {
    pub closed spec fn wf(&self) -> bool {
        self.keys.wf()
    }

    /// Nothing is down and nothing was counted.
    pub fn new() -> (t: Self)
        ensures
            t.wf(),
            t@ == SelftestState::initial(),
    {
        Selftest {
            keys: KeyTable::new(),
            buttons: HashMap::new(),
            counters: SelftestCounters {
                captured_mouse: 0,
                captured_keys: 0,
                injected_ok: 0,
                injected_fail: 0,
            },
        }
    }

    fn modifier_is_held(&self) -> (r: bool)
        requires
            self.wf(),
        ensures
            r == self@.modifier_held(),
    {
        let ctrl = self.keys.contains(Key::Ctrl);
        let alt = self.keys.contains(Key::Alt);
        let shift = self.keys.contains(Key::Shift);
        let super_key = self.keys.contains(Key::Super);
        proof {
            let keys = self@.keys;
            assert(ctrl ==> keys.contains_key(Key::Ctrl) && modifier_key(Key::Ctrl));
            assert(alt ==> keys.contains_key(Key::Alt) && modifier_key(Key::Alt));
            assert(shift ==> keys.contains_key(Key::Shift) && modifier_key(Key::Shift));
            assert(super_key ==> keys.contains_key(Key::Super) && modifier_key(Key::Super));
        }
        ctrl || alt || shift || super_key
    }

    /// An event was captured. Returns what to play back, one after another.
    pub fn selftest_loopback(&mut self, payload: Payload) -> (echoes: Vec<Payload>)
        requires
            old(self).wf(),
        ensures
            final(self).wf(),
            final(self)@ == old(self)@.after(payload),
            echoes@ == old(self)@.echoes(payload),
    {
        broadcast use vstd::std_specs::hash::group_hash_axioms;

        match &payload {
            Payload::MouseMove { .. } => {
                self.counters.captured_mouse = count(self.counters.captured_mouse);
                return Vec::new();
            },
            Payload::MouseButton { .. } => {
                self.counters.captured_mouse = count(self.counters.captured_mouse);
            },
            Payload::Key { .. } => {
                self.counters.captured_keys = count(self.counters.captured_keys);
            },
            _ => {},
        }
        let mut echoes: Vec<Payload> = Vec::new();
        let pressed: Option<Payload> = match &payload {
            Payload::Key { key, down, .. } => {
                if *down {
                    let k = *key;
                    self.keys.insert(k, payload);
                    assert(self@ == old(self)@.after(payload));
                    return echoes;
                }
                self.keys.remove(*key)
            },
            Payload::MouseButton { button, down } => {
                if *down {
                    let b: u8 = *button;
                    let _ = self.buttons.insert(b, payload);
                    assert(self@.buttons =~= old(self)@.after(payload).buttons);
                    return echoes;
                }
                self.buttons.remove(button)
            },
            _ => {
                echoes.push(payload);
                assert(echoes@ =~= old(self)@.echoes(payload));
                return echoes;
            },
        };
        assert(self@.buttons =~= old(self)@.after(payload).buttons);
        assert(self@.keys =~= old(self)@.after(payload).keys);
        match pressed {
            Some(first) => {
                if !self.modifier_is_held() {
                    echoes.push(first);
                    echoes.push(payload);
                    assert(echoes@ =~= old(self)@.echoes(payload));
                }
            },
            None => {},
        }
        echoes
    }

    /// Something was played back; the system took `sent` events.
    pub fn injected(&mut self, sent: u32)
        requires
            old(self).wf(),
        ensures
            final(self).wf(),
            final(self)@ == (SelftestState {
                counters: if sent > 0 {
                    SelftestCounters {
                        injected_ok: one_more(old(self)@.counters.injected_ok),
                        ..old(self)@.counters
                    }
                } else {
                    SelftestCounters {
                        injected_fail: one_more(old(self)@.counters.injected_fail),
                        ..old(self)@.counters
                    }
                },
                ..old(self)@
            }),
    {
        if sent > 0 {
            self.counters.injected_ok = count(self.counters.injected_ok);
        } else {
            self.counters.injected_fail = count(self.counters.injected_fail);
        }
    }

    /// What the user is shown.
    pub fn stats(&self, enabled: bool) -> (v: SelftestStatsView)
        ensures
            v == (SelftestStatsView {
                enabled,
                captured_mouse: self@.counters.captured_mouse,
                captured_keys: self@.counters.captured_keys,
                injected_ok: self@.counters.injected_ok,
                injected_fail: self@.counters.injected_fail,
            }),
    {
        SelftestStatsView {
            enabled,
            captured_mouse: self.counters.captured_mouse,
            captured_keys: self.counters.captured_keys,
            injected_ok: self.counters.injected_ok,
            injected_fail: self.counters.injected_fail,
        }
    }
}

/// A whole key is played back as it was captured: what went down comes before what
/// went up, and nothing stays down.
pub proof fn law_keys_are_echoed_whole(t: SelftestState, down: Payload, up: Payload, key: Key)
    requires
        down matches Payload::Key { key: k, down: d, .. } && k == key && d,
        up matches Payload::Key { key: k, down: d, .. } && k == key && !d,
        !modifier_key(key),
        !t.modifier_held(),
    ensures
        t.echoes(down) == Seq::<Payload>::empty(),
        t.after(down).echoes(up) == seq![down, up],
        !t.after(down).after(up).keys.contains_key(key),
{
    let after = t.after(down).after(up);
    if after.modifier_held() {
        let k = choose|k: Key| #[trigger] after.keys.contains_key(k) && modifier_key(k);
        assert(t.keys.contains_key(k));
    }
}

/// While a modifier is down no other key is played back, so that no shortcut is
/// played twice.
pub proof fn law_shortcuts_are_not_echoed(t: SelftestState, p: Payload, held: Key)
    requires
        t.keys.contains_key(held),
        modifier_key(held),
        p matches Payload::Key { key, .. } && key != held,
    ensures
        t.echoes(p) == Seq::<Payload>::empty(),
{
    assert(t.after(p).keys.contains_key(held));
}

/// How `{:?}` of the standard library writes a character: in quotes, with escapes.
pub uninterp spec fn char_debug(c: char) -> Seq<char>;

/// Writes a character with `{:?}`.
#[verifier::external_body]
fn debug_text(c: char) -> (s: String)
    ensures
        s@ == char_debug(c),
{
    format!("{c:?}")
}

/// The presses and releases that type some text.
pub open spec fn strokes(s: Seq<char>) -> Seq<Payload>
    decreases s.len(),
{
    if s.len() == 0 {
        Seq::empty()
    } else {
        match key_of_char(s.last()) {
            Some(key) => strokes(s.drop_last()).push(
                Payload::Key { key, scan: 0, extended: false, down: true },
            ).push(Payload::Key { key, scan: 0, extended: false, down: false }),
            None => strokes(s.drop_last()),
        }
    }
}

/// How many characters at the start of a text can be typed.
pub open spec fn typeable(s: Seq<char>) -> nat
    decreases s.len(),
{
    if s.len() == 0 || key_of_char(s[0]) is None {
        0
    } else {
        1 + typeable(s.skip(1))
    }
}

/// What the user is told of a character that cannot be typed, which reads `shown`.
pub open spec fn unsupported(shown: Seq<char>) -> Seq<char> {
    "暂不支持字符 "@ + shown + "，请用字母/数字/空格"@
}

/// What the user is told of a character that cannot be typed.
pub fn unsupported_text(shown: &str) -> (s: String)
    ensures
        s@ == unsupported(shown@),
{
    let mut s = "暂不支持字符 ".to_owned();
    s.push_str(shown);
    s.push_str("，请用字母/数字/空格");
    s
}

proof fn lemma_typeable(s: Seq<char>, n: int)
    requires
        0 <= n <= s.len(),
        forall|i: int| 0 <= i < n ==> key_of_char(#[trigger] s[i]) is Some,
        n < s.len() ==> key_of_char(s[n]) is None,
    ensures
        typeable(s) == n,
    decreases n,
{
    if n > 0 {
        assert(key_of_char(s[0]) is Some);
        let rest = s.skip(1);
        assert forall|i: int| 0 <= i < n - 1 implies key_of_char(#[trigger] rest[i]) is Some by {
            assert(rest[i] == s[i + 1]);
        }
        lemma_typeable(rest, n - 1);
    }
}

/// What to play to type a text. A character that cannot be typed ends it, with an
/// error for the user.
pub fn test_inject(text: &str) -> (r: (Vec<Payload>, Option<String>))
    ensures
        r.0@ == strokes(text@.take(typeable(text@) as int)),
        match r.1 {
            Some(e) => typeable(text@) < text@.len() && e@ == unsupported(
                char_debug(text@[typeable(text@) as int]),
            ),
            None => typeable(text@) == text@.len(),
        },
{
    let v = chars_of(text);
    let n: usize = v.len();
    let mut out: Vec<Payload> = Vec::new();
    let mut i: usize = 0;
    assert(v@.take(0) =~= Seq::<char>::empty());
    while i < n
        invariant
            n == v@.len(),
            v@ == text@,
            i <= n,
            forall|j: int| 0 <= j < i ==> key_of_char(#[trigger] v@[j]) is Some,
            out@ == strokes(v@.take(i as int)),
        decreases n - i,
    {
        match char_to_key(v[i]) {
            Some(key) => {
                out.push(Payload::Key { key, scan: 0, extended: false, down: true });
                out.push(Payload::Key { key, scan: 0, extended: false, down: false });
            },
            None => {
                proof {
                    lemma_typeable(v@, i as int);
                }
                let shown = debug_text(v[i]);
                return (out, Some(unsupported_text(shown.as_str())));
            },
        }
        i += 1;
        proof {
            assert(v@.take(i as int).drop_last() =~= v@.take(i - 1));
            assert(v@.take(i as int).last() == v@[i - 1]);
        }
    }
    proof {
        lemma_typeable(v@, n as int);
    }
    (out, None)
}

/// Movements and clicks count as mouse events and keys as keys, one each; a counter that
/// is full starts again from zero. Nothing else counts.
pub proof fn law_what_is_counted(t: SelftestState, p: Payload)
    ensures
        p is MouseMove || p is MouseButton ==> {
            &&& t.counters.captured_mouse < u64::MAX ==> t.after(p).counters.captured_mouse
                == t.counters.captured_mouse + 1
            &&& t.counters.captured_mouse == u64::MAX ==> t.after(p).counters.captured_mouse == 0
            &&& t.after(p).counters.captured_keys == t.counters.captured_keys
        },
        p is Key ==> {
            &&& t.counters.captured_keys < u64::MAX ==> t.after(p).counters.captured_keys
                == t.counters.captured_keys + 1
            &&& t.counters.captured_keys == u64::MAX ==> t.after(p).counters.captured_keys == 0
            &&& t.after(p).counters.captured_mouse == t.counters.captured_mouse
        },
        !(p is MouseMove) && !(p is MouseButton) && !(p is Key) ==> t.after(p).counters
            == t.counters,
        t.after(p).counters.injected_ok == t.counters.injected_ok,
        t.after(p).counters.injected_fail == t.counters.injected_fail,
{
}

/// What went down is remembered until it goes up, keys and buttons apart.
pub proof fn law_what_is_down_is_remembered(t: SelftestState, p: Payload)
    ensures
        p matches Payload::Key { key, down, .. } ==> {
            &&& down ==> t.after(p).keys == t.keys.insert(key, p)
            &&& !down ==> t.after(p).keys == t.keys.remove(key)
            &&& t.after(p).buttons == t.buttons
        },
        p matches Payload::MouseButton { button, down } ==> {
            &&& down ==> t.after(p).buttons == t.buttons.insert(button, p)
            &&& !down ==> t.after(p).buttons == t.buttons.remove(button)
            &&& t.after(p).keys == t.keys
        },
        !(p is Key) && !(p is MouseButton) ==> t.after(p).keys == t.keys && t.after(p).buttons
            == t.buttons,
{
}

/// A click is played back as a whole when the button goes up, unless a modifier is down;
/// what went down without being seen is not played back, nor is any movement. The wheel
/// is played back at once.
pub proof fn law_what_is_played_back(t: SelftestState, p: Payload)
    ensures
        p is MouseMove ==> t.echoes(p).len() == 0,
        p matches Payload::MouseButton { button, down } ==> {
            &&& down ==> t.echoes(p).len() == 0
            &&& !t.buttons.contains_key(button) ==> t.echoes(p).len() == 0
            &&& t.keys.contains_key(Key::Ctrl) || t.keys.contains_key(Key::Alt)
                || t.keys.contains_key(Key::Shift) || t.keys.contains_key(Key::Super)
                ==> t.echoes(p).len() == 0
            &&& !down && t.buttons.contains_key(button) && !t.keys.contains_key(Key::Ctrl)
                && !t.keys.contains_key(Key::Alt) && !t.keys.contains_key(Key::Shift)
                && !t.keys.contains_key(Key::Super) ==> t.echoes(p) == seq![t.buttons[button], p]
        },
        p matches Payload::Key { key, down, .. } ==> (down || !t.keys.contains_key(key)
            ==> t.echoes(p).len() == 0),
        !(p is MouseMove) && !(p is MouseButton) && !(p is Key) ==> t.echoes(p) == seq![p],
{
    if t.keys.contains_key(Key::Ctrl) {
        assert(modifier_key(Key::Ctrl));
    }
    if t.keys.contains_key(Key::Alt) {
        assert(modifier_key(Key::Alt));
    }
    if t.keys.contains_key(Key::Shift) {
        assert(modifier_key(Key::Shift));
    }
    if t.keys.contains_key(Key::Super) {
        assert(modifier_key(Key::Super));
    }
    if p is MouseButton {
        assert(t.after(p).keys == t.keys);
        if t.modifier_held() {
            let k = choose|k: Key| #[trigger] t.keys.contains_key(k) && modifier_key(k);
            assert(k == Key::Ctrl || k == Key::Alt || k == Key::Shift || k == Key::Super);
        }
    }
}

/// A text is typed character by character, each by pressing its key and letting it go;
/// what can be typed ends before the first character without a key.
pub proof fn law_text_is_typed_key_by_key(s: Seq<char>, c: char)
    ensures
        strokes(Seq::empty()).len() == 0,
        key_of_char(c) matches Some(key) ==> strokes(s.push(c)) == strokes(s) + seq![
            Payload::Key { key, scan: 0, extended: false, down: true },
            Payload::Key { key, scan: 0, extended: false, down: false },
        ],
        key_of_char(c) is None ==> strokes(s.push(c)) == strokes(s),
        typeable(s) <= s.len(),
        forall|i: int| 0 <= i < typeable(s) ==> key_of_char(#[trigger] s[i]) is Some,
        typeable(s) < s.len() ==> key_of_char(s[typeable(s) as int]) is None,
    decreases s.len(),
{
    assert(s.push(c).drop_last() =~= s);
    if let Some(key) = key_of_char(c) {
        assert(strokes(s.push(c)) =~= strokes(s) + seq![
            Payload::Key { key, scan: 0, extended: false, down: true },
            Payload::Key { key, scan: 0, extended: false, down: false },
        ]);
    }
    if s.len() > 0 && key_of_char(s[0]) is Some {
        let rest = s.skip(1);
        law_text_is_typed_key_by_key(rest, c);
        assert forall|i: int| 0 <= i < typeable(s) implies key_of_char(#[trigger] s[i]) is Some by {
            if i > 0 {
                assert(rest[i - 1] == s[i]);
            }
        }
    }
}

} // verus!
