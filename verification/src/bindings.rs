//! The key bindings of the switcher.

use vstd::prelude::*;

use crate::scope::{MruDirection, MruFilter, MruScope};
use xkeysym::Keysym;

verus! {

/// The keys held down together with another one.
#[derive(Clone, Copy, Debug, PartialEq, Eq, Hash, Structural)]
pub struct Modifiers {
    pub ctrl: bool,
    pub shift: bool,
    pub alt: bool,
    pub super_key: bool,
    pub iso_level3_shift: bool,
    pub iso_level5_shift: bool,
}

/// The key that keeps the switcher open.
#[derive(Clone, Copy, Debug, PartialEq, Eq, Hash, Structural)]
pub enum ModKey {
    Ctrl,
    Shift,
    Alt,
    Super,
    IsoLevel3Shift,
    IsoLevel5Shift,
}

impl Modifiers {
    pub open spec fn spec_empty() -> Modifiers {
        Modifiers {
            ctrl: false,
            shift: false,
            alt: false,
            super_key: false,
            iso_level3_shift: false,
            iso_level5_shift: false,
        }
    }

    /// The modifiers that are in either.
    pub open spec fn spec_union(self, other: Modifiers) -> Modifiers {
        Modifiers {
            ctrl: self.ctrl || other.ctrl,
            shift: self.shift || other.shift,
            alt: self.alt || other.alt,
            super_key: self.super_key || other.super_key,
            iso_level3_shift: self.iso_level3_shift || other.iso_level3_shift,
            iso_level5_shift: self.iso_level5_shift || other.iso_level5_shift,
        }
    }

    /// No modifiers.
    pub fn empty() -> (modifiers: Modifiers)
        ensures
            modifiers == Modifiers::spec_empty(),
    {
        Modifiers {
            ctrl: false,
            shift: false,
            alt: false,
            super_key: false,
            iso_level3_shift: false,
            iso_level5_shift: false,
        }
    }

    /// The modifiers that are in either.
    pub fn union(self, other: Modifiers) -> (modifiers: Modifiers)
        ensures
            modifiers == self.spec_union(other),
    {
        Modifiers {
            ctrl: self.ctrl || other.ctrl,
            shift: self.shift || other.shift,
            alt: self.alt || other.alt,
            super_key: self.super_key || other.super_key,
            iso_level3_shift: self.iso_level3_shift || other.iso_level3_shift,
            iso_level5_shift: self.iso_level5_shift || other.iso_level5_shift,
        }
    }
}

impl ModKey {
    pub open spec fn modifiers(self) -> Modifiers {
        let none = Modifiers::spec_empty();
        match self {
            ModKey::Ctrl => Modifiers { ctrl: true, ..none },
            ModKey::Shift => Modifiers { shift: true, ..none },
            ModKey::Alt => Modifiers { alt: true, ..none },
            ModKey::Super => Modifiers { super_key: true, ..none },
            ModKey::IsoLevel3Shift => Modifiers { iso_level3_shift: true, ..none },
            ModKey::IsoLevel5Shift => Modifiers { iso_level5_shift: true, ..none },
        }
    }

    /// The modifier that the key is.
    pub fn to_modifiers(self) -> (modifiers: Modifiers)
        ensures
            modifiers == self.modifiers(),
    {
        let mut modifiers: Modifiers = Modifiers::empty();
        match self {
            ModKey::Ctrl => {
                modifiers.ctrl = true;
            },
            ModKey::Shift => {
                modifiers.shift = true;
            },
            ModKey::Alt => {
                modifiers.alt = true;
            },
            ModKey::Super => {
                modifiers.super_key = true;
            },
            ModKey::IsoLevel3Shift => {
                modifiers.iso_level3_shift = true;
            },
            ModKey::IsoLevel5Shift => {
                modifiers.iso_level5_shift = true;
            },
        }
        modifiers
    }
}

/// A key that prints nothing.
#[derive(Clone, Copy, Debug, PartialEq, Eq, Hash, Structural)]
pub enum ControlKey {
    Escape,
    Return,
    Tab,
    Home,
    End,
    Left,
    Right,
}

/// A key that prints a character.
#[derive(Clone, Copy, Debug, PartialEq, Eq, Hash, Structural)]
pub enum CharacterKey {
    A,
    H,
    J,
    K,
    L,
    O,
    Q,
    S,
    W,
    Grave,
}

/// The X11 code of a key that prints nothing.
pub open spec fn control_code(key: ControlKey) -> u32 {
    match key {
        ControlKey::Escape => 0xff1b,
        ControlKey::Return => 0xff0d,
        ControlKey::Tab => 0xff09,
        ControlKey::Home => 0xff50,
        ControlKey::End => 0xff57,
        ControlKey::Left => 0xff51,
        ControlKey::Right => 0xff53,
    }
}

/// The X11 code of a key that prints a character: the character's.
pub open spec fn character_code(key: CharacterKey) -> u32 {
    match key {
        CharacterKey::A => 'a' as u32,
        CharacterKey::H => 'h' as u32,
        CharacterKey::J => 'j' as u32,
        CharacterKey::K => 'k' as u32,
        CharacterKey::L => 'l' as u32,
        CharacterKey::O => 'o' as u32,
        CharacterKey::Q => 'q' as u32,
        CharacterKey::S => 's' as u32,
        CharacterKey::W => 'w' as u32,
        CharacterKey::Grave => '`' as u32,
    }
}

/// The constants of [`xkeysym::Keysym`] for keys that print nothing, as [`Keysym::raw`] gives them:
/// the X11 codes of those keys.
#[verifier::external_body]
fn control_keysym(key: ControlKey) -> (code: u32)
    ensures
        code == control_code(key),
{
    let keysym: Keysym = match key {
        ControlKey::Escape => Keysym::Escape,
        ControlKey::Return => Keysym::Return,
        ControlKey::Tab => Keysym::Tab,
        ControlKey::Home => Keysym::Home,
        ControlKey::End => Keysym::End,
        ControlKey::Left => Keysym::Left,
        ControlKey::Right => Keysym::Right,
    };
    keysym.raw()
}

/// The constants of [`xkeysym::Keysym`] for keys that print a character, as [`Keysym::raw`] gives
/// them: the codes of the lower-case characters.
#[verifier::external_body]
fn character_keysym(key: CharacterKey) -> (code: u32)
    ensures
        code == character_code(key),
{
    let keysym: Keysym = match key {
        CharacterKey::A => Keysym::a,
        CharacterKey::H => Keysym::h,
        CharacterKey::J => Keysym::j,
        CharacterKey::K => Keysym::k,
        CharacterKey::L => Keysym::l,
        CharacterKey::O => Keysym::o,
        CharacterKey::Q => Keysym::q,
        CharacterKey::S => Keysym::s,
        CharacterKey::W => Keysym::w,
        CharacterKey::Grave => Keysym::grave,
    };
    keysym.raw()
}

/// What sets off a binding.
#[derive(Clone, Copy, Debug, PartialEq, Eq, Hash, Structural)]
pub enum Trigger {
    /// The key symbol with the given code.
    Keysym(u32),
}

/// A key with modifiers.
#[derive(Clone, Copy, Debug, PartialEq, Eq, Hash, Structural)]
pub struct Key {
    pub trigger: Trigger,
    pub modifiers: Modifiers,
}

/// What a binding does.
#[derive(Clone, Copy, Debug, PartialEq, Eq, Hash, Structural)]
pub enum Action {
    /// Closes the switcher and leaves the focus where it is.
    MruCancel,
    /// Closes the switcher and focuses the selected window.
    MruClose,
    /// Closes the selected window.
    MruCloseCurrent,
    MruFirst,
    MruLast,
    MruAdvance(MruDirection, Option<MruScope>, Option<MruFilter>),
    MruChangeScope(MruScope),
    MruCycleScope(MruDirection),
}

/// A key binding.
#[derive(Clone, Copy, Debug, PartialEq, Eq, Hash)]
pub struct Bind {
    pub key: Key,
    pub action: Action,
    pub repeat: bool,
    /// The least time between two uses, in nanoseconds.
    pub cooldown: Option<u128>,
    pub allow_when_locked: bool,
    pub allow_inhibiting: bool,
    /// The title in the list of hotkeys; `Some(None)` keeps the binding out of the list.
    pub hotkey_overlay_title: Option<Option<&'static str>>,
}

/// A preset binding, with or without the shift key.
pub open spec fn preset(code: u32, shift: bool, action: Action) -> Bind {
    Bind {
        key: Key {
            trigger: Trigger::Keysym(code),
            modifiers: Modifiers { shift, ..Modifiers::spec_empty() },
        },
        action,
        repeat: true,
        cooldown: None,
        allow_when_locked: false,
        allow_inhibiting: true,
        hotkey_overlay_title: None,
    }
}

/// The bindings that are available whether the switcher is open or closed, without the mod key.
///
/// They are preset because releasing the mod key ends the walk: other bindings would not work as
/// intended.
pub open spec fn mru_ui_bindings() -> Seq<Bind> {
    seq![
        preset(control_code(ControlKey::Tab), false, Action::MruAdvance(MruDirection::Forward, None, Some(MruFilter::Any))),
        preset(control_code(ControlKey::Tab), true, Action::MruAdvance(MruDirection::Backward, None, Some(MruFilter::Any))),
        preset(character_code(CharacterKey::Grave), false, Action::MruAdvance(MruDirection::Forward, None, Some(MruFilter::AppId))),
        preset(character_code(CharacterKey::Grave), true, Action::MruAdvance(MruDirection::Backward, None, Some(MruFilter::AppId))),
    ]
}

/// The bindings that are available while the switcher is open, without the mod key.
pub open spec fn mru_ui_opened_bindings() -> Seq<Bind> {
    seq![
        preset(control_code(ControlKey::Escape), false, Action::MruCancel),
        preset(control_code(ControlKey::Right), false, Action::MruAdvance(MruDirection::Forward, None, None)),
        preset(control_code(ControlKey::Left), false, Action::MruAdvance(MruDirection::Backward, None, None)),
        preset(character_code(CharacterKey::J), false, Action::MruAdvance(MruDirection::Forward, None, None)),
        preset(character_code(CharacterKey::K), false, Action::MruAdvance(MruDirection::Backward, None, None)),
        preset(character_code(CharacterKey::L), false, Action::MruAdvance(MruDirection::Forward, None, None)),
        preset(character_code(CharacterKey::H), false, Action::MruAdvance(MruDirection::Backward, None, None)),
        preset(character_code(CharacterKey::Q), false, Action::MruCloseCurrent),
        preset(control_code(ControlKey::Return), false, Action::MruClose),
        preset(control_code(ControlKey::Home), false, Action::MruFirst),
        preset(control_code(ControlKey::End), false, Action::MruLast),
        preset(character_code(CharacterKey::A), false, Action::MruChangeScope(MruScope::All)),
        preset(character_code(CharacterKey::W), false, Action::MruChangeScope(MruScope::Workspace)),
        preset(character_code(CharacterKey::O), false, Action::MruChangeScope(MruScope::Output)),
        preset(character_code(CharacterKey::S), false, Action::MruCycleScope(MruDirection::Forward)),
        preset(character_code(CharacterKey::S), true, Action::MruCycleScope(MruDirection::Backward)),
    ]
}

/// A binding with further modifiers.
pub open spec fn held(bind: Bind, modifiers: Modifiers) -> Bind {
    Bind {
        key: Key { modifiers: bind.key.modifiers.spec_union(modifiers), ..bind.key },
        ..bind
    }
}

/// Bindings with further modifiers.
pub open spec fn all_held(binds: Seq<Bind>, modifiers: Modifiers) -> Seq<Bind> {
    Seq::new(binds.len(), |i: int| held(binds[i], modifiers))
}

/// The bindings that are available with the given mod key.
pub open spec fn available(mod_key: ModKey, is_open: bool) -> Seq<Bind> {
    all_held(mru_ui_bindings(), mod_key.modifiers()) + if is_open {
        all_held(mru_ui_opened_bindings(), mod_key.modifiers())
    } else {
        Seq::empty()
    }
}

fn bind(code: u32, shift: bool, action: Action) -> (bind: Bind)
    ensures
        bind == preset(code, shift, action),
{
    let mut modifiers: Modifiers = Modifiers::empty();
    modifiers.shift = shift;
    Bind {
        key: Key { trigger: Trigger::Keysym(code), modifiers },
        action,
        repeat: true,
        cooldown: None,
        allow_when_locked: false,
        allow_inhibiting: true,
        hotkey_overlay_title: None,
    }
}

/// Adds modifiers to bindings.
fn hold_all(binds: &Vec<Bind>, modifiers: Modifiers) -> (all: Vec<Bind>)
    ensures
        all@ == all_held(binds@, modifiers),
{
    let mut all: Vec<Bind> = Vec::new();
    let mut i: usize = 0;
    while i < binds.len()
        invariant
            i <= binds.len(),
            all@.len() == i,
            forall|j: int| 0 <= j < i ==> all@[j] == held(binds@[j], modifiers),
        decreases binds.len() - i,
    {
        let mut bind: Bind = binds[i];
        bind.key.modifiers = bind.key.modifiers.union(modifiers);
        all.push(bind);
        i += 1;
    }
    assert(all@ =~= all_held(binds@, modifiers));
    all
}

/// The bindings that are available whether the switcher is open or closed.
pub fn common_bindings(mod_key: ModKey) -> (binds: Vec<Bind>)
    ensures
        binds@ == all_held(mru_ui_bindings(), mod_key.modifiers()),
{
    let binds: Vec<Bind> = vec![
        bind(control_keysym(ControlKey::Tab), false, Action::MruAdvance(MruDirection::Forward, None, Some(MruFilter::Any))),
        bind(control_keysym(ControlKey::Tab), true, Action::MruAdvance(MruDirection::Backward, None, Some(MruFilter::Any))),
        bind(character_keysym(CharacterKey::Grave), false, Action::MruAdvance(MruDirection::Forward, None, Some(MruFilter::AppId))),
        bind(character_keysym(CharacterKey::Grave), true, Action::MruAdvance(MruDirection::Backward, None, Some(MruFilter::AppId))),
    ];
    assert(binds@ =~= mru_ui_bindings());
    hold_all(&binds, mod_key.to_modifiers())
}

/// The bindings that are available while the switcher is open.
pub fn opened_bindings(mod_key: ModKey) -> (binds: Vec<Bind>)
    ensures
        binds@ == all_held(mru_ui_opened_bindings(), mod_key.modifiers()),
{
    let binds: Vec<Bind> = vec![
        bind(control_keysym(ControlKey::Escape), false, Action::MruCancel),
        bind(control_keysym(ControlKey::Right), false, Action::MruAdvance(MruDirection::Forward, None, None)),
        bind(control_keysym(ControlKey::Left), false, Action::MruAdvance(MruDirection::Backward, None, None)),
        bind(character_keysym(CharacterKey::J), false, Action::MruAdvance(MruDirection::Forward, None, None)),
        bind(character_keysym(CharacterKey::K), false, Action::MruAdvance(MruDirection::Backward, None, None)),
        bind(character_keysym(CharacterKey::L), false, Action::MruAdvance(MruDirection::Forward, None, None)),
        bind(character_keysym(CharacterKey::H), false, Action::MruAdvance(MruDirection::Backward, None, None)),
        bind(character_keysym(CharacterKey::Q), false, Action::MruCloseCurrent),
        bind(control_keysym(ControlKey::Return), false, Action::MruClose),
        bind(control_keysym(ControlKey::Home), false, Action::MruFirst),
        bind(control_keysym(ControlKey::End), false, Action::MruLast),
        bind(character_keysym(CharacterKey::A), false, Action::MruChangeScope(MruScope::All)),
        bind(character_keysym(CharacterKey::W), false, Action::MruChangeScope(MruScope::Workspace)),
        bind(character_keysym(CharacterKey::O), false, Action::MruChangeScope(MruScope::Output)),
        bind(character_keysym(CharacterKey::S), false, Action::MruCycleScope(MruDirection::Forward)),
        bind(character_keysym(CharacterKey::S), true, Action::MruCycleScope(MruDirection::Backward)),
    ];
    assert(binds@ =~= mru_ui_opened_bindings());
    hold_all(&binds, mod_key.to_modifiers())
}

/// All bindings have the mod key, since the switcher closes when it is released.
pub proof fn law_mod_key_held(mod_key: ModKey, is_open: bool, i: int)
    requires
        0 <= i < available(mod_key, is_open).len(),
    ensures
        ({
            let modifiers = available(mod_key, is_open)[i].key.modifiers;
            modifiers.spec_union(mod_key.modifiers()) == modifiers
        }),
{
}

/// Opening the switcher adds bindings and takes none away.
pub proof fn law_open_adds_bindings(mod_key: ModKey)
    ensures
        available(mod_key, false).is_prefix_of(available(mod_key, true)),
{
}

/// No two bindings have the same key, unless the mod key is the shift key, which some of them tell
/// apart.
pub proof fn law_keys_distinct(mod_key: ModKey, is_open: bool, i: int, j: int)
    requires
        mod_key != ModKey::Shift,
        0 <= i < j < available(mod_key, is_open).len(),
    ensures
        available(mod_key, is_open)[i].key != available(mod_key, is_open)[j].key,
{
    let common = mru_ui_bindings();
    let opened = mru_ui_opened_bindings();
    let all = common + opened;
    let shown = available(mod_key, is_open);
    assert(shown[i] == held(all[i], mod_key.modifiers()));
    assert(shown[j] == held(all[j], mod_key.modifiers()));
    assert(common.len() == 4 && opened.len() == 16);
}

/// The modifier of a mod key is that key, and no other is held.
pub proof fn law_modifier_of_mod_key(mod_key: ModKey)
    ensures
        mod_key.modifiers().ctrl <==> mod_key == ModKey::Ctrl,
        mod_key.modifiers().shift <==> mod_key == ModKey::Shift,
        mod_key.modifiers().alt <==> mod_key == ModKey::Alt,
        mod_key.modifiers().super_key <==> mod_key == ModKey::Super,
        mod_key.modifiers().iso_level3_shift <==> mod_key == ModKey::IsoLevel3Shift,
        mod_key.modifiers().iso_level5_shift <==> mod_key == ModKey::IsoLevel5Shift,
{
}

/// A union holds what either holds, and the empty modifiers hold nothing.
pub proof fn law_union(a: Modifiers, b: Modifiers)
    ensures
        a.spec_union(b) == b.spec_union(a),
        a.spec_union(a) == a,
        a.spec_union(Modifiers::spec_empty()) == a,
        a.spec_union(b).ctrl <==> a.ctrl || b.ctrl,
        a.spec_union(b).shift <==> a.shift || b.shift,
        a.spec_union(b).alt <==> a.alt || b.alt,
        a.spec_union(b).super_key <==> a.super_key || b.super_key,
        a.spec_union(b).iso_level3_shift <==> a.iso_level3_shift || b.iso_level3_shift,
        a.spec_union(b).iso_level5_shift <==> a.iso_level5_shift || b.iso_level5_shift,
{
}

/// There are four bindings, and sixteen more while the switcher is open. Every one repeats, needs
/// no time between uses, is not for a locked session, can be inhibited and is listed as it is. It
/// takes the mod key, the shift key where the binding is for the other direction, and nothing else.
pub proof fn law_bindings_alike(mod_key: ModKey, is_open: bool, i: int)
    requires
        0 <= i < available(mod_key, is_open).len(),
    ensures
        available(mod_key, is_open).len() == if is_open { 20int } else { 4 },
        ({
            let bind = available(mod_key, is_open)[i];
            let held = bind.key.modifiers;
            &&& bind.repeat
            &&& bind.cooldown is None
            &&& !bind.allow_when_locked
            &&& bind.allow_inhibiting
            &&& bind.hotkey_overlay_title is None
            &&& held.ctrl <==> mod_key == ModKey::Ctrl
            &&& held.shift <==> mod_key == ModKey::Shift || i == 1 || i == 3 || i == 19
            &&& held.alt <==> mod_key == ModKey::Alt
            &&& held.super_key <==> mod_key == ModKey::Super
            &&& held.iso_level3_shift <==> mod_key == ModKey::IsoLevel3Shift
            &&& held.iso_level5_shift <==> mod_key == ModKey::IsoLevel5Shift
        }),
{
    lemma_available(mod_key, is_open, i);
}

/// The tab key walks all windows, and the grave key those of the application, with shift backward.
/// The bindings do the same whatever the mod key is, and whether or not the switcher is open.
pub proof fn law_walking_keys(mod_key: ModKey, is_open: bool)
    ensures
        ({
            let binds = available(mod_key, is_open);
            &&& binds[0].key.trigger == Trigger::Keysym(0xff09)
            &&& binds[0].action == Action::MruAdvance(
                MruDirection::Forward,
                None,
                Some(MruFilter::Any),
            )
            &&& binds[1].key.trigger == Trigger::Keysym(0xff09)
            &&& binds[1].action == Action::MruAdvance(
                MruDirection::Backward,
                None,
                Some(MruFilter::Any),
            )
            &&& binds[2].key.trigger == Trigger::Keysym(0x60)
            &&& binds[2].action == Action::MruAdvance(
                MruDirection::Forward,
                None,
                Some(MruFilter::AppId),
            )
            &&& binds[3].key.trigger == Trigger::Keysym(0x60)
            &&& binds[3].action == Action::MruAdvance(
                MruDirection::Backward,
                None,
                Some(MruFilter::AppId),
            )
        }),
{
    lemma_available(mod_key, is_open, 0);
    lemma_available(mod_key, is_open, 1);
    lemma_available(mod_key, is_open, 2);
    lemma_available(mod_key, is_open, 3);
}

/// While the switcher is open, whatever the mod key is: Escape cancels; Right, j and l go forward,
/// and Left, k and h backward; q closes the selected window and Return the switcher; Home and End go
/// to the ends; a, w and o choose the scope, and s goes through the scopes.
pub proof fn law_keys_of_open_switcher(mod_key: ModKey)
    ensures
        ({
            let binds = available(mod_key, true);
            let forward = Action::MruAdvance(MruDirection::Forward, None, None);
            let backward = Action::MruAdvance(MruDirection::Backward, None, None);
            &&& does(binds[4], 0xff1b, Action::MruCancel)
            &&& does(binds[5], 0xff53, forward)
            &&& does(binds[6], 0xff51, backward)
            &&& does(binds[7], 0x6a, forward)
            &&& does(binds[8], 0x6b, backward)
            &&& does(binds[9], 0x6c, forward)
            &&& does(binds[10], 0x68, backward)
            &&& does(binds[11], 0x71, Action::MruCloseCurrent)
            &&& does(binds[12], 0xff0d, Action::MruClose)
            &&& does(binds[13], 0xff50, Action::MruFirst)
            &&& does(binds[14], 0xff57, Action::MruLast)
            &&& does(binds[15], 0x61, Action::MruChangeScope(MruScope::All))
            &&& does(binds[16], 0x77, Action::MruChangeScope(MruScope::Workspace))
            &&& does(binds[17], 0x6f, Action::MruChangeScope(MruScope::Output))
            &&& does(binds[18], 0x73, Action::MruCycleScope(MruDirection::Forward))
            &&& does(binds[19], 0x73, Action::MruCycleScope(MruDirection::Backward))
        }),
{
    assert forall|i: int| 0 <= i < 20 implies #[trigger] available(mod_key, true)[i] == held(
        (mru_ui_bindings() + mru_ui_opened_bindings())[i],
        mod_key.modifiers(),
    ) by {
        lemma_available(mod_key, true, i);
    }
    assert('a' as u32 == 0x61 && 'h' as u32 == 0x68 && 'j' as u32 == 0x6a && 'k' as u32 == 0x6b
        && 'l' as u32 == 0x6c && 'o' as u32 == 0x6f && 'q' as u32 == 0x71 && 's' as u32 == 0x73
        && 'w' as u32 == 0x77);
}

/// The binding is for the key with the given code and has the given action.
pub open spec fn does(bind: Bind, code: u32, action: Action) -> bool {
    bind.key.trigger == Trigger::Keysym(code) && bind.action == action
}

proof fn lemma_available(mod_key: ModKey, is_open: bool, i: int)
    requires
        0 <= i < if is_open { 20int } else { 4 },
    ensures
        available(mod_key, is_open).len() == if is_open { 20int } else { 4 },
        available(mod_key, is_open)[i] == held(
            (mru_ui_bindings() + mru_ui_opened_bindings())[i],
            mod_key.modifiers(),
        ),
{
    assert(mru_ui_bindings().len() == 4 && mru_ui_opened_bindings().len() == 16);
}

/// What is available is what always is, followed by what is while the switcher is open.
pub proof fn law_bindings_joined(mod_key: ModKey)
    ensures
        available(mod_key, false) == all_held(mru_ui_bindings(), mod_key.modifiers()),
        available(mod_key, true) == all_held(mru_ui_bindings(), mod_key.modifiers()) + all_held(
            mru_ui_opened_bindings(),
            mod_key.modifiers(),
        ),
{
    assert(available(mod_key, false) =~= all_held(mru_ui_bindings(), mod_key.modifiers()));
}

} // verus!
