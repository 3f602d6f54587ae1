//! Key routing of the IBus engine: which keys switch between Hangul and Latin
//! mode, how a key event is classified, and what the engine does with it.
//!
//! The engine's D-Bus side performs the actions decided here (committing the
//! composition, feeding the composer, emitting signals) and reports whether the
//! composer holds an unfinished syllable.

use vstd::prelude::*;
use vstd::string::*;
use std::collections::HashSet;

use crate::text::str_equals;

verus! {

broadcast use vstd::std_specs::hash::group_hash_axioms;

/// Key release flag of the event state.
pub const RELEASE_MASK: u32 = 1 << 30;
/// Caps Lock flag of the event state.
pub const LOCK_MASK: u32 = 1 << 1;
/// Control flag of the event state.
pub const CONTROL_MASK: u32 = 1 << 2;
/// Alt flag of the event state.
pub const MOD1_MASK: u32 = 1 << 3;
/// Super flag of the event state.
pub const SUPER_MASK: u32 = 1 << 26;
/// Meta flag of the event state.
pub const META_MASK: u32 = 1 << 28;
/// The modifiers that make a key a shortcut for the application.
pub const SPECIAL_MODS: u32 = CONTROL_MASK | MOD1_MASK | SUPER_MASK | META_MASK;

/// Keysym of BackSpace.
pub const KEY_BACKSPACE: u32 = 0xff08;
/// Keysym of the Hangul (Han/Yeong) key.
pub const KEY_HANGUL: u32 = 0xff31;

/// One entry of a layout's shortcut table: a virtual key name (`VK_HANGUL`,
/// ...) and its usage (`IME_SWITCH`, `KEYCHAR`, ...).
pub struct Shortcut {
    pub key: String,
    pub usage: String,
}

/// What the IBus frontend reads of a compiled layout: its shortcut table.
pub struct Layout {
    pub shortcuts: Vec<Shortcut>,
}

/// How a key event is routed.
#[derive(Debug, PartialEq, Eq, Structural, Clone, Copy)]
pub enum KeyClass {
    /// The release of a key that is not an IME switch key.
    Release,
    /// A key that switches between Hangul and Latin mode.
    ImeSwitch,
    /// A modifier key itself (Shift, Control, Caps Lock, ...).
    Modifier,
    /// A key pressed with Control, Alt, Super or Meta.
    ShortcutCombo,
    /// BackSpace.
    Backspace,
    /// A printable ASCII key (space included).
    Printable(u8),
    /// Any other key (Enter, Escape, arrows, ...).
    FunctionKey,
}

/// What the engine does with a key event.
#[derive(Debug, PartialEq, Eq, Structural, Clone, Copy)]
pub enum KeyAction {
    /// Consume the key and do nothing else.
    Swallow,
    /// Commit the composition; the mode has been switched; consume the key.
    SwitchMode,
    /// Leave the key to the application.
    PassThrough,
    /// Commit the composition, then leave the key to the application.
    CommitAndPass,
    /// Take back one jamo of the composition; the composer says whether the key
    /// was consumed.
    Backspace,
    /// Feed the key to the composer with the Caps Lock state; the composer says
    /// whether the key was consumed.
    Press(u8, bool),
}

/// The keysym is a modifier key itself: Shift_L..Hyper_R, ISO_Lock and the
/// ISO level shifts, or Mode_switch.
pub open spec fn is_modifier_key(keyval: u32) -> bool {
    (0xffe1 <= keyval <= 0xffee) || (0xfe01 <= keyval <= 0xfe0f) || keyval == 0xff7e
}

/// The keysyms of a shortcut table virtual key name.
pub open spec fn vk_keysyms(vk: Seq<char>) -> Seq<u32> {
    if vk == "VK_HANGUL"@ {
        seq![0xff31u32]
    } else if vk == "VK_HANJA"@ {
        seq![0xff34u32]
    } else if vk == "VK_CAPITAL"@ {
        seq![0xffe5u32]
    } else if vk == "VK_SPACE"@ {
        seq![0x20u32]
    } else if vk == "VK_RMENU"@ {
        seq![0xffeau32]
    } else if vk == "VK_RCONTROL"@ {
        seq![0xffe4u32]
    } else {
        Seq::empty()
    }
}

/// The keysyms that switch modes under a shortcut table: the Hangul key, and
/// the keysyms of every shortcut whose usage is `IME_SWITCH`.
pub open spec fn switch_keys(shortcuts: Seq<Shortcut>) -> Set<u32> {
    Set::new(
        |k: u32|
            k == KEY_HANGUL || exists|i: int|
                0 <= i < shortcuts.len() && shortcuts[i].usage@ == "IME_SWITCH"@ && #[trigger] vk_keysyms(
                    shortcuts[i].key@,
                ).contains(k),
    )
}

/// The class of a key event. A switch key is recognised before release and
/// modifier keys, because Caps Lock is a modifier keysym too.
pub open spec fn key_class(switch: Set<u32>, keyval: u32, state: u32) -> KeyClass {
    if switch.contains(keyval) {
        KeyClass::ImeSwitch
    } else if state & RELEASE_MASK != 0 {
        KeyClass::Release
    } else if is_modifier_key(keyval) {
        KeyClass::Modifier
    } else if state & SPECIAL_MODS != 0 {
        KeyClass::ShortcutCombo
    } else if keyval == KEY_BACKSPACE {
        KeyClass::Backspace
    } else if 0x20 <= keyval <= 0x7e {
        KeyClass::Printable(keyval as u8)
    } else {
        KeyClass::FunctionKey
    }
}

/// The event presses (not releases) a switch key.
pub open spec fn is_switch_press(class: KeyClass, state: u32) -> bool {
    class == KeyClass::ImeSwitch && state & RELEASE_MASK == 0
}

/// The mode after a key event: a switch key press flips it.
pub open spec fn mode_after(hangul: bool, class: KeyClass, state: u32) -> bool {
    if is_switch_press(class, state) {
        !hangul
    } else {
        hangul
    }
}

/// What the engine does with a key event of the given class, in Hangul mode
/// or not, with or without a composition in progress.
pub open spec fn key_action(hangul: bool, class: KeyClass, state: u32, composing: bool) -> KeyAction {
    match class {
        KeyClass::ImeSwitch => if state & RELEASE_MASK == 0 {
            KeyAction::SwitchMode
        } else {
            KeyAction::Swallow
        },
        KeyClass::Release | KeyClass::Modifier => KeyAction::PassThrough,
        KeyClass::ShortcutCombo => KeyAction::CommitAndPass,
        _ => if !hangul {
            KeyAction::PassThrough
        } else {
            match class {
                KeyClass::Backspace => if composing {
                    KeyAction::Backspace
                } else {
                    KeyAction::PassThrough
                },
                KeyClass::Printable(ascii) => KeyAction::Press(ascii, state & LOCK_MASK != 0),
                _ => KeyAction::CommitAndPass,
            }
        },
    }
}

/// A switch key press flips the mode and a second one flips it back; any other
/// event keeps the mode.
pub proof fn lemma_mode_switch(hangul: bool, class: KeyClass, state: u32)
    ensures
        mode_after(mode_after(hangul, class, state), class, state) == hangul,
        !is_switch_press(class, state) ==> mode_after(hangul, class, state) == hangul,
{
}

/// In Latin mode the composer is never fed nor edited.
pub proof fn lemma_latin_mode_leaves_composer(class: KeyClass, state: u32, composing: bool)
    ensures
        !(key_action(false, class, state, composing) is Press),
        key_action(false, class, state, composing) != KeyAction::Backspace,
{
}

/// A release event changes neither the mode nor the composition, and is
/// consumed only when it releases a switch key.
pub proof fn lemma_release_is_inert(
    switch: Set<u32>,
    hangul: bool,
    keyval: u32,
    state: u32,
    composing: bool,
)
    requires
        state & RELEASE_MASK != 0,
    ensures
        mode_after(hangul, key_class(switch, keyval, state), state) == hangul,
        key_action(hangul, key_class(switch, keyval, state), state, composing) == (if switch.contains(
            keyval,
        ) {
            KeyAction::Swallow
        } else {
            KeyAction::PassThrough
        }),
{
}

/// The Hangul key switches modes under every layout, whatever the modifiers.
pub proof fn lemma_hangul_key_switches(shortcuts: Seq<Shortcut>, state: u32)
    ensures
        key_class(switch_keys(shortcuts), KEY_HANGUL, state) == KeyClass::ImeSwitch,
{
}

/// A printable key is reported with its own code.
pub proof fn lemma_printable_code(switch: Set<u32>, keyval: u32, state: u32)
    ensures
        key_class(switch, keyval, state) matches KeyClass::Printable(a) ==> a as u32 == keyval
            && 0x20 <= keyval <= 0x7e,
{
}

/// A printable key without Control, Alt, Super or Meta, that is not a switch
/// key, goes to the composer in Hangul mode with its own code and with Caps
/// Lock on exactly when the Caps Lock bit of the state is set (Shift alone does
/// not count); in Latin mode it passes to the application. It never changes
/// the mode.
pub proof fn lemma_printable_routing(switch: Set<u32>, keyval: u32, state: u32, composing: bool)
    requires
        0x20 <= keyval <= 0x7e,
        !switch.contains(keyval),
        state & RELEASE_MASK == 0,
        state & SPECIAL_MODS == 0,
    ensures
        key_action(true, key_class(switch, keyval, state), state, composing) == KeyAction::Press(
            keyval as u8,
            state & LOCK_MASK != 0,
        ),
        key_action(false, key_class(switch, keyval, state), state, composing)
            == KeyAction::PassThrough,
        mode_after(true, key_class(switch, keyval, state), state),
        !mode_after(false, key_class(switch, keyval, state), state),
{
}

/// The routing of every key event, case by case: switch keys switch on press
/// and are swallowed on release; other releases and modifier keys pass;
/// shortcut combinations commit and pass; BackSpace edits a composition in
/// Hangul mode and passes otherwise; other non-printable keys commit and pass
/// in Hangul mode and pass in Latin mode.
pub proof fn lemma_key_routing(
    switch: Set<u32>,
    hangul: bool,
    keyval: u32,
    state: u32,
    composing: bool,
)
    ensures
        ({
            let a = key_action(hangul, key_class(switch, keyval, state), state, composing);
            let pressed = state & RELEASE_MASK == 0;
            let modifier = (0xffe1 <= keyval <= 0xffee) || (0xfe01 <= keyval <= 0xfe0f) || keyval
                == 0xff7e;
            let plain = !switch.contains(keyval) && pressed && !modifier && state & SPECIAL_MODS
                == 0;
            &&& switch.contains(keyval) ==> a == (if pressed {
                KeyAction::SwitchMode
            } else {
                KeyAction::Swallow
            })
            &&& switch.contains(keyval) && pressed ==> mode_after(
                hangul,
                key_class(switch, keyval, state),
                state,
            ) == !hangul
            &&& !switch.contains(keyval) ==> mode_after(
                hangul,
                key_class(switch, keyval, state),
                state,
            ) == hangul
            &&& !switch.contains(keyval) && !pressed ==> a == KeyAction::PassThrough
            &&& !switch.contains(keyval) && pressed && modifier ==> a == KeyAction::PassThrough
            &&& !switch.contains(keyval) && pressed && !modifier && state & SPECIAL_MODS != 0 ==> a
                == KeyAction::CommitAndPass
            &&& plain && keyval == 0xff08 ==> a == (if hangul && composing {
                KeyAction::Backspace
            } else {
                KeyAction::PassThrough
            })
            &&& plain && keyval != 0xff08 && !(0x20 <= keyval <= 0x7e) ==> a == (if hangul {
                KeyAction::CommitAndPass
            } else {
                KeyAction::PassThrough
            })
        }),
{
}

/// The switch keys of a layout: the Hangul key, every keysym of every
/// `IME_SWITCH` shortcut wherever it stands in the table, and nothing else.
pub proof fn lemma_switch_keys(shortcuts: Seq<Shortcut>, i: int, k: u32)
    ensures
        switch_keys(shortcuts).contains(0xff31),
        0 <= i < shortcuts.len() && shortcuts[i].usage@ == "IME_SWITCH"@ && vk_keysyms(
            shortcuts[i].key@,
        ).contains(k) ==> switch_keys(shortcuts).contains(k),
        switch_keys(shortcuts).contains(k) ==> k == 0xff31 || exists|j: int|
            0 <= j < shortcuts.len() && shortcuts[j].usage@ == "IME_SWITCH"@ && vk_keysyms(
                shortcuts[j].key@,
            ).contains(k),
{
    if 0 <= i < shortcuts.len() && shortcuts[i].usage@ == "IME_SWITCH"@ && vk_keysyms(
        shortcuts[i].key@,
    ).contains(k) {
        assert(vk_keysyms(shortcuts[i].key@).contains(k));
    }
}

/// Adding a shortcut to the end of a table adds its keysyms when it is an
/// `IME_SWITCH` shortcut and nothing otherwise.
pub proof fn lemma_switch_keys_push(shortcuts: Seq<Shortcut>, x: Shortcut)
    ensures
        switch_keys(shortcuts.push(x)) == (if x.usage@ == "IME_SWITCH"@ {
            switch_keys(shortcuts) + vk_keysyms(x.key@).to_set()
        } else {
            switch_keys(shortcuts)
        }),
{
    let s2 = shortcuts.push(x);
    let n = shortcuts.len() as int;
    let rhs = if x.usage@ == "IME_SWITCH"@ {
        switch_keys(shortcuts) + vk_keysyms(x.key@).to_set()
    } else {
        switch_keys(shortcuts)
    };
    assert forall|k: u32| switch_keys(s2).contains(k) <==> rhs.contains(k) by {
        if switch_keys(s2).contains(k) && k != KEY_HANGUL {
            let j = choose|j: int|
                0 <= j < s2.len() && s2[j].usage@ == "IME_SWITCH"@ && #[trigger] vk_keysyms(
                    s2[j].key@,
                ).contains(k);
            if j < n {
                assert(s2[j] == shortcuts[j]);
            }
        }
        if rhs.contains(k) && k != KEY_HANGUL {
            if switch_keys(shortcuts).contains(k) {
                let j = choose|j: int|
                    0 <= j < shortcuts.len() && shortcuts[j].usage@ == "IME_SWITCH"@
                        && #[trigger] vk_keysyms(shortcuts[j].key@).contains(k);
                assert(s2[j] == shortcuts[j]);
            } else {
                assert(s2[n] == x);
                assert(vk_keysyms(s2[n].key@).contains(k));
            }
        }
    }
    assert(switch_keys(s2) =~= rhs);
}

/// The keysym is a modifier key itself; such keys produce no text and pass
/// through without touching the composition.
pub fn is_modifier_keysym(keyval: u32) -> (r: bool)
    ensures
        r == is_modifier_key(keyval),
{
    (0xffe1 <= keyval && keyval <= 0xffee) || (0xfe01 <= keyval && keyval <= 0xfe0f) || keyval
        == 0xff7e
}

/// The X11/IBus keysyms of a shortcut table virtual key name.
pub fn vk_to_keysyms(vk: &str) -> (r: Vec<u32>)
    ensures
        r@ == vk_keysyms(vk@),
{
    if str_equals(vk, "VK_HANGUL") {
        vec![0xff31]
    } else if str_equals(vk, "VK_HANJA") {
        vec![0xff34]
    } else if str_equals(vk, "VK_CAPITAL") {
        vec![0xffe5]
    } else if str_equals(vk, "VK_SPACE") {
        vec![0x20]
    } else if str_equals(vk, "VK_RMENU") {
        vec![0xffea]
    } else if str_equals(vk, "VK_RCONTROL") {
        vec![0xffe4]
    } else {
        Vec::new()
    }
}

/// The routing state of one IBus engine instance.
pub struct IBusEngine {
    /// Hangul composition mode (`true`) or Latin pass-through (`false`).
    pub hangul: bool,
    /// The keysyms that switch modes.
    pub ime_switch: HashSet<u32>,
}

impl IBusEngine {
    /// A new engine in Hangul mode whose switch keys are the Hangul key and
    /// the keys of the layout's `IME_SWITCH` shortcuts.
    pub fn new(layout: Layout) -> (r: Self)
        ensures
            r.hangul,
            r.ime_switch@ == switch_keys(layout.shortcuts@),
    {
        let mut ime_switch: HashSet<u32> = HashSet::new();
        ime_switch.insert(KEY_HANGUL);
        let ghost sc = layout.shortcuts@;
        let n = layout.shortcuts.len();
        let mut i: usize = 0;
        while i < n
            invariant
                i <= n,
                n == sc.len(),
                sc == layout.shortcuts@,
                ime_switch@ == Set::new(
                    |k: u32|
                        k == KEY_HANGUL || exists|j: int|
                            0 <= j < i && sc[j].usage@ == "IME_SWITCH"@
                                && #[trigger] vk_keysyms(sc[j].key@).contains(k),
                ),
            decreases n - i,
        {
            let s = &layout.shortcuts[i];
            if str_equals(s.usage.as_str(), "IME_SWITCH") {
                let keys = vk_to_keysyms(s.key.as_str());
                let m = keys.len();
                let ghost before = ime_switch@;
                let mut t: usize = 0;
                while t < m
                    invariant
                        t <= m,
                        m == keys@.len(),
                        ime_switch@ == before + Set::new(
                            |k: u32| exists|q: int| 0 <= q < t && keys@[q] == k,
                        ),
                    decreases m - t,
                {
                    ime_switch.insert(keys[t]);
                    assert(ime_switch@ =~= before + Set::new(
                        |k: u32| exists|q: int| 0 <= q < t + 1 && keys@[q] == k,
                    ));
                    t = t + 1;
                }
                assert(ime_switch@ =~= Set::new(
                    |k: u32|
                        k == KEY_HANGUL || exists|j: int|
                            0 <= j < i + 1 && sc[j].usage@ == "IME_SWITCH"@
                                && #[trigger] vk_keysyms(sc[j].key@).contains(k),
                )) by {
                    assert forall|k: u32|
                        #![auto]
                        (exists|j: int|
                            0 <= j < i + 1 && sc[j].usage@ == "IME_SWITCH"@
                                && #[trigger] vk_keysyms(sc[j].key@).contains(k)) implies ime_switch@.contains(k)
                    by {
                        let j = choose|j: int|
                            0 <= j < i + 1 && sc[j].usage@ == "IME_SWITCH"@
                                && #[trigger] vk_keysyms(sc[j].key@).contains(k);
                        if j == i {
                            assert(keys@.contains(k));
                        }
                    }
                    assert forall|k: u32| #[trigger] ime_switch@.contains(k) && k != KEY_HANGUL implies (exists|j: int|
                            0 <= j < i + 1 && sc[j].usage@ == "IME_SWITCH"@
                                && #[trigger] vk_keysyms(sc[j].key@).contains(k)) by {
                        if !before.contains(k) {
                            let q = choose|q: int| 0 <= q < m && keys@[q] == k;
                            assert(sc[i as int] == *s);
                            assert(vk_keysyms(sc[i as int].key@).contains(k));
                        }
                    }
                }
            } else {
                assert(ime_switch@ =~= Set::new(
                    |k: u32|
                        k == KEY_HANGUL || exists|j: int|
                            0 <= j < i + 1 && sc[j].usage@ == "IME_SWITCH"@
                                && #[trigger] vk_keysyms(sc[j].key@).contains(k),
                )) by {
                    assert forall|k: u32|
                        #![auto]
                        (exists|j: int|
                            0 <= j < i + 1 && sc[j].usage@ == "IME_SWITCH"@
                                && #[trigger] vk_keysyms(sc[j].key@).contains(k)) implies ime_switch@.contains(k)
                    by {
                        let j = choose|j: int|
                            0 <= j < i + 1 && sc[j].usage@ == "IME_SWITCH"@
                                && #[trigger] vk_keysyms(sc[j].key@).contains(k);
                        assert(j != i);
                    }
                }
            }
            i = i + 1;
        }
        IBusEngine { hangul: true, ime_switch }
    }

    /// The keysym switches modes.
    pub fn is_ime_switch(&self, keyval: u32) -> (r: bool)
        ensures
            r == self.ime_switch@.contains(keyval),
    {
        self.ime_switch.contains(&keyval)
    }

    /// Classifies a key event. Switch keys come first, before release and
    /// modifier keys, because Caps Lock is a modifier keysym too.
    pub fn classify(&self, keyval: u32, state: u32) -> (r: KeyClass)
        ensures
            r == key_class(self.ime_switch@, keyval, state),
    {
        if self.ime_switch.contains(&keyval) {
            return KeyClass::ImeSwitch;
        }
        if state & RELEASE_MASK != 0 {
            return KeyClass::Release;
        }
        if is_modifier_keysym(keyval) {
            return KeyClass::Modifier;
        }
        if state & SPECIAL_MODS != 0 {
            return KeyClass::ShortcutCombo;
        }
        if keyval == KEY_BACKSPACE {
            return KeyClass::Backspace;
        }
        if 0x20 <= keyval && keyval <= 0x7e {
            return KeyClass::Printable(keyval as u8);
        }
        KeyClass::FunctionKey
    }

    /// Decides what to do with a key event and updates the mode; `composing`
    /// tells whether the composer holds an unfinished composition.
    pub fn process_key_event(&mut self, keyval: u32, state: u32, composing: bool) -> (r: KeyAction)
        ensures
            final(self).ime_switch@ == old(self).ime_switch@,
            final(self).hangul == mode_after(
                old(self).hangul,
                key_class(old(self).ime_switch@, keyval, state),
                state,
            ),
            r == key_action(
                old(self).hangul,
                key_class(old(self).ime_switch@, keyval, state),
                state,
                composing,
            ),
    {
        let release = state & RELEASE_MASK != 0;
        match self.classify(keyval, state) {
            KeyClass::ImeSwitch => {
                if !release {
                    self.hangul = !self.hangul;
                    KeyAction::SwitchMode
                } else {
                    KeyAction::Swallow
                }
            },
            KeyClass::Release | KeyClass::Modifier => KeyAction::PassThrough,
            KeyClass::ShortcutCombo => KeyAction::CommitAndPass,
            KeyClass::Backspace => {
                if !self.hangul || !composing {
                    KeyAction::PassThrough
                } else {
                    KeyAction::Backspace
                }
            },
            KeyClass::Printable(ascii) => {
                if !self.hangul {
                    KeyAction::PassThrough
                } else {
                    KeyAction::Press(ascii, state & LOCK_MASK != 0)
                }
            },
            KeyClass::FunctionKey => {
                if !self.hangul {
                    KeyAction::PassThrough
                } else {
                    KeyAction::CommitAndPass
                }
            },
        }
    }
}

} // verus!
