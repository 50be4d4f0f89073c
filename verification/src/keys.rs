//! The keyboard: which key does what, and the menu entries.

use vstd::prelude::*;
use crate::drawer::ContextPage;
use crate::library::MoveDir;
use crate::message::{EditAdjust, Message, Modifiers};
use crate::single::Single;
use crate::text;

verus! {

/// A key that types no character.
#[derive(Clone, Copy, Debug, PartialEq, Eq, Structural)]
pub enum NamedKey {
    Enter,
    ArrowLeft,
    ArrowRight,
    ArrowUp,
    ArrowDown,
    Other,
}

/// Something that happened on the keyboard. The character of a key is the one
/// it types without modifiers.
#[derive(Debug)]
pub enum KeyEvent {
    NamedPressed(NamedKey),
    Pressed { character: String, modifiers: Modifiers, repeat: bool },
    Released { character: String, modifiers: Modifiers },
    ModifiersChanged(Modifiers),
}

/// What a key asks for: an adjustment of an editing control, whose new value is
/// still to be worked out, or anything else.
#[derive(Debug)]
pub enum KeyAction {
    Adjust(EditAdjust),
    Send(Message),
}

/// The step of an exposure key: half a stop, or a twentieth with Shift.
pub open spec fn exposure_step(up: bool, shift: bool) -> Single {
    Single {
        bits: if shift {
            if up {
                0x3d4c_cccd
            } else {
                0xbd4c_cccd
            }
        } else {
            if up {
                0x3f00_0000
            } else {
                0xbf00_0000
            }
        },
    }
}

/// The step of a tone key: a fifth, or a twentieth with Shift.
pub open spec fn tone_step(up: bool, shift: bool) -> Single {
    Single {
        bits: if shift {
            if up {
                0x3d4c_cccd
            } else {
                0xbd4c_cccd
            }
        } else {
            if up {
                0x3e4c_cccd
            } else {
                0xbe4c_cccd
            }
        },
    }
}

/// The adjustment that a key stands for.
pub open spec fn adjustment(key: Seq<char>, shift: bool) -> Option<EditAdjust> {
    if key == seq!['-'] {
        Some(EditAdjust::Exposure(exposure_step(false, shift)))
    } else if key == seq!['='] {
        Some(EditAdjust::Exposure(exposure_step(true, shift)))
    } else if key == seq!['['] {
        Some(EditAdjust::Contrast(tone_step(false, shift)))
    } else if key == seq![']'] {
        Some(EditAdjust::Contrast(tone_step(true, shift)))
    } else if key == seq![';'] {
        Some(EditAdjust::Rolloff(tone_step(false, shift)))
    } else if key == seq!['\''] {
        Some(EditAdjust::Rolloff(tone_step(true, shift)))
    } else if key == seq![','] {
        Some(EditAdjust::Shadows(tone_step(false, shift)))
    } else if key == seq!['.'] {
        Some(EditAdjust::Shadows(tone_step(true, shift)))
    } else if key == seq!['r'] {
        Some(EditAdjust::RotateCcw)
    } else {
        None
    }
}

/// The single character that a text is, if it is one.
fn only_char(s: &str) -> (r: Option<char>)
    ensures
        match r {
            Some(c) => s@ == seq![c],
            None => s@.len() != 1,
        },
{
    let chars: Vec<char> = text::chars_of(s);
    if chars.len() == 1 {
        assert(s@ =~= seq![chars@[0]]);
        Some(chars[0])
    } else {
        None
    }
}

fn exposure_delta(up: bool, shift: bool) -> (r: Single)
    ensures
        r == exposure_step(up, shift),
{
    let bits: u32 = if shift {
        if up {
            0x3d4c_cccd
        } else {
            0xbd4c_cccd
        }
    } else {
        if up {
            0x3f00_0000
        } else {
            0xbf00_0000
        }
    };
    Single { bits }
}

fn tone_delta(up: bool, shift: bool) -> (r: Single)
    ensures
        r == tone_step(up, shift),
{
    let bits: u32 = if shift {
        if up {
            0x3d4c_cccd
        } else {
            0xbd4c_cccd
        }
    } else {
        if up {
            0x3e4c_cccd
        } else {
            0xbe4c_cccd
        }
    };
    Single { bits }
}

/// Two texts of one character are equal exactly when the characters are.
proof fn single_chars(c: char, d: char)
    ensures
        (seq![c] == seq![d]) == (c == d),
{
    if seq![c] == seq![d] {
        assert(seq![c][0] == seq![d][0]);
    }
}

/// Maps a keyboard shortcut character to an adjustment, or to `None` when the
/// key is not bound. A bare key takes the coarse step, Shift the fine one; the
/// other modifier does not matter.
pub fn edit_adjust_for(key: &str, _alt: bool, shift: bool) -> (r: Option<EditAdjust>)
    ensures
        r == adjustment(key@, shift),
{
    let c: char = match only_char(key) {
        Some(c) => c,
        None => {
            return None;
        },
    };
    proof {
        single_chars(c, '-');
        single_chars(c, '=');
        single_chars(c, '[');
        single_chars(c, ']');
        single_chars(c, ';');
        single_chars(c, '\'');
        single_chars(c, ',');
        single_chars(c, '.');
        single_chars(c, 'r');
    }
    if c == '-' {
        Some(EditAdjust::Exposure(exposure_delta(false, shift)))
    } else if c == '=' {
        Some(EditAdjust::Exposure(exposure_delta(true, shift)))
    } else if c == '[' {
        Some(EditAdjust::Contrast(tone_delta(false, shift)))
    } else if c == ']' {
        Some(EditAdjust::Contrast(tone_delta(true, shift)))
    } else if c == ';' {
        Some(EditAdjust::Rolloff(tone_delta(false, shift)))
    } else if c == '\'' {
        Some(EditAdjust::Rolloff(tone_delta(true, shift)))
    } else if c == ',' {
        Some(EditAdjust::Shadows(tone_delta(false, shift)))
    } else if c == '.' {
        Some(EditAdjust::Shadows(tone_delta(true, shift)))
    } else if c == 'r' {
        Some(EditAdjust::RotateCcw)
    } else {
        None
    }
}

/// What a character does while Ctrl is held.
pub open spec fn with_control(key: Seq<char>) -> Option<KeyAction> {
    if key == seq!['a'] {
        Some(KeyAction::Send(Message::SelectAllFrames))
    } else if key == seq!['c'] {
        Some(KeyAction::Send(Message::CopyEdits))
    } else if key == seq!['v'] {
        Some(KeyAction::Send(Message::PasteEdits))
    } else {
        None
    }
}

/// What a character does without Ctrl. A held key toggles once: crop mode and
/// help take no repeats.
pub open spec fn without_control(key: Seq<char>, shift: bool, repeat: bool) -> Option<KeyAction> {
    if key == seq![' '] {
        Some(KeyAction::Send(Message::ToggleContext))
    } else if key == seq!['e'] {
        Some(KeyAction::Send(Message::ExportRequested))
    } else if key == seq!['c'] && !repeat {
        Some(KeyAction::Send(Message::ToggleCropMode))
    } else if key == seq!['/'] && shift && !repeat {
        Some(KeyAction::Send(Message::ToggleHelp))
    } else if key == seq!['h'] {
        Some(KeyAction::Send(Message::Nav(MoveDir::Left)))
    } else if key == seq!['j'] {
        Some(KeyAction::Send(Message::Nav(MoveDir::Down)))
    } else if key == seq!['k'] {
        Some(KeyAction::Send(Message::Nav(MoveDir::Up)))
    } else if key == seq!['l'] {
        Some(KeyAction::Send(Message::Nav(MoveDir::Right)))
    } else {
        match adjustment(key, shift) {
            Some(adjust) => Some(KeyAction::Adjust(adjust)),
            None => None,
        }
    }
}

/// What something on the keyboard asks for.
pub open spec fn asked(event: KeyEvent) -> Option<KeyAction> {
    match event {
        KeyEvent::NamedPressed(NamedKey::Enter) => Some(KeyAction::Send(Message::OpenSelected)),
        KeyEvent::NamedPressed(NamedKey::ArrowLeft) => Some(
            KeyAction::Send(Message::Nav(MoveDir::Left)),
        ),
        KeyEvent::NamedPressed(NamedKey::ArrowRight) => Some(
            KeyAction::Send(Message::Nav(MoveDir::Right)),
        ),
        KeyEvent::NamedPressed(NamedKey::ArrowUp) => Some(
            KeyAction::Send(Message::Nav(MoveDir::Up)),
        ),
        KeyEvent::NamedPressed(NamedKey::ArrowDown) => Some(
            KeyAction::Send(Message::Nav(MoveDir::Down)),
        ),
        KeyEvent::NamedPressed(NamedKey::Other) => None,
        KeyEvent::Pressed { character, modifiers, repeat } => if modifiers.control {
            with_control(character@)
        } else {
            without_control(character@, modifiers.shift, repeat)
        },
        KeyEvent::Released { character, modifiers } => if !modifiers.control && adjustment(
            character@,
            modifiers.shift,
        ) is Some {
            Some(KeyAction::Send(Message::EditKeyReleased))
        } else {
            None
        },
        KeyEvent::ModifiersChanged(modifiers) => Some(
            KeyAction::Send(Message::ModifiersChanged(modifiers)),
        ),
    }
}

fn control_action(key: &str) -> (r: Option<KeyAction>)
    ensures
        r == with_control(key@),
{
    let c: char = match only_char(key) {
        Some(c) => c,
        None => {
            return None;
        },
    };
    proof {
        single_chars(c, 'a');
        single_chars(c, 'c');
        single_chars(c, 'v');
    }
    if c == 'a' {
        Some(KeyAction::Send(Message::SelectAllFrames))
    } else if c == 'c' {
        Some(KeyAction::Send(Message::CopyEdits))
    } else if c == 'v' {
        Some(KeyAction::Send(Message::PasteEdits))
    } else {
        None
    }
}

fn plain_action(key: &str, modifiers: Modifiers, repeat: bool) -> (r: Option<KeyAction>)
    ensures
        r == without_control(key@, modifiers.shift, repeat),
{
    let c: char = match only_char(key) {
        Some(c) => c,
        None => {
            return None;
        },
    };
    proof {
        single_chars(c, ' ');
        single_chars(c, 'e');
        single_chars(c, 'c');
        single_chars(c, '/');
        single_chars(c, 'h');
        single_chars(c, 'j');
        single_chars(c, 'k');
        single_chars(c, 'l');
    }
    if c == ' ' {
        Some(KeyAction::Send(Message::ToggleContext))
    } else if c == 'e' {
        Some(KeyAction::Send(Message::ExportRequested))
    } else if c == 'c' && !repeat {
        Some(KeyAction::Send(Message::ToggleCropMode))
    } else if c == '/' && modifiers.shift && !repeat {
        Some(KeyAction::Send(Message::ToggleHelp))
    } else if c == 'h' {
        Some(KeyAction::Send(Message::Nav(MoveDir::Left)))
    } else if c == 'j' {
        Some(KeyAction::Send(Message::Nav(MoveDir::Down)))
    } else if c == 'k' {
        Some(KeyAction::Send(Message::Nav(MoveDir::Up)))
    } else if c == 'l' {
        Some(KeyAction::Send(Message::Nav(MoveDir::Right)))
    } else {
        match edit_adjust_for(key, modifiers.alt, modifiers.shift) {
            Some(adjust) => Some(KeyAction::Adjust(adjust)),
            None => None,
        }
    }
}

/// Maps something on the keyboard to what it asks for, whatever is on screen.
pub fn key_action(event: KeyEvent) -> (r: Option<KeyAction>)
    ensures
        r == asked(event),
{
    match event {
        KeyEvent::NamedPressed(key) => match key {
            NamedKey::Enter => Some(KeyAction::Send(Message::OpenSelected)),
            NamedKey::ArrowLeft => Some(KeyAction::Send(Message::Nav(MoveDir::Left))),
            NamedKey::ArrowRight => Some(KeyAction::Send(Message::Nav(MoveDir::Right))),
            NamedKey::ArrowUp => Some(KeyAction::Send(Message::Nav(MoveDir::Up))),
            NamedKey::ArrowDown => Some(KeyAction::Send(Message::Nav(MoveDir::Down))),
            NamedKey::Other => None,
        },
        KeyEvent::Pressed { character, modifiers, repeat } => if modifiers.control {
            control_action(character.as_str())
        } else {
            plain_action(character.as_str(), modifiers, repeat)
        },
        KeyEvent::Released { character, modifiers } => if !modifiers.control && edit_adjust_for(
            character.as_str(),
            modifiers.alt,
            modifiers.shift,
        ).is_some() {
            Some(KeyAction::Send(Message::EditKeyReleased))
        } else {
            None
        },
        KeyEvent::ModifiersChanged(modifiers) => Some(
            KeyAction::Send(Message::ModifiersChanged(modifiers)),
        ),
    }
}

/// An entry of the menu bar.
#[derive(Clone, Copy, Debug, PartialEq, Eq, Structural)]
pub enum MenuAction {
    AddRoll,
    RemoveRoll,
    Quit,
    SelectAll,
    CopyEdits,
    PasteEdits,
    Export,
    CalibrateBase,
    About,
    Details,
    ToggleCropMode,
}

impl MenuAction {
    /// The message of an entry. A calibration takes the samples it is made
    /// from.
    pub open spec fn sends(self, samples: Vec<Single>) -> Message {
        match self {
            MenuAction::AddRoll => Message::AddRoll,
            MenuAction::RemoveRoll => Message::RemoveSelectedRoll,
            MenuAction::Quit => Message::Quit,
            MenuAction::SelectAll => Message::SelectAllFrames,
            MenuAction::CopyEdits => Message::CopyEdits,
            MenuAction::PasteEdits => Message::PasteEdits,
            MenuAction::Export => Message::ExportRequested,
            MenuAction::CalibrateBase => Message::CalibrateBaseFromFrame(samples),
            MenuAction::About => Message::ToggleContextPage(ContextPage::About),
            MenuAction::Details => Message::ToggleContext,
            MenuAction::ToggleCropMode => Message::ToggleCropMode,
        }
    }

    /// The message of an entry.
    pub fn message(self, samples: Vec<Single>) -> (r: Message)
        ensures
            r == self.sends(samples),
    {
        match self {
            MenuAction::AddRoll => Message::AddRoll,
            MenuAction::RemoveRoll => Message::RemoveSelectedRoll,
            MenuAction::Quit => Message::Quit,
            MenuAction::SelectAll => Message::SelectAllFrames,
            MenuAction::CopyEdits => Message::CopyEdits,
            MenuAction::PasteEdits => Message::PasteEdits,
            MenuAction::Export => Message::ExportRequested,
            MenuAction::CalibrateBase => Message::CalibrateBaseFromFrame(samples),
            MenuAction::About => Message::ToggleContextPage(ContextPage::About),
            MenuAction::Details => Message::ToggleContext,
            MenuAction::ToggleCropMode => Message::ToggleCropMode,
        }
    }
}

/// Every key that adjusts a control commits the adjustment when it is released
/// with the same modifiers.
pub proof fn adjusting_keys_commit_on_release(key: String, modifiers: Modifiers, repeat: bool)
    requires
        asked(KeyEvent::Pressed { character: key, modifiers, repeat }) matches Some(
            KeyAction::Adjust(_),
        ),
    ensures
        asked(KeyEvent::Released { character: key, modifiers }) == Some(
            KeyAction::Send(Message::EditKeyReleased),
        ),
{
}

/// The letters that move do what the arrows do.
pub proof fn letters_move_like_arrows(key: String, modifiers: Modifiers, repeat: bool)
    requires
        !modifiers.control,
    ensures
        ({
            let pressed = asked(KeyEvent::Pressed { character: key, modifiers, repeat });
            &&& key@ == seq!['h'] ==> pressed == asked(KeyEvent::NamedPressed(NamedKey::ArrowLeft))
            &&& key@ == seq!['j'] ==> pressed == asked(KeyEvent::NamedPressed(NamedKey::ArrowDown))
            &&& key@ == seq!['k'] ==> pressed == asked(KeyEvent::NamedPressed(NamedKey::ArrowUp))
            &&& key@ == seq!['l'] ==> pressed == asked(
                KeyEvent::NamedPressed(NamedKey::ArrowRight),
            )
        }),
{
    if key@ == seq!['h'] || key@ == seq!['j'] || key@ == seq!['k'] || key@ == seq!['l'] {
        let c = key@[0];
        single_chars(c, ' ');
        single_chars(c, 'e');
        single_chars(c, 'c');
        single_chars(c, '/');
        single_chars(c, 'h');
        single_chars(c, 'j');
        single_chars(c, 'k');
        single_chars(c, 'l');
        assert(key@ =~= seq![c]);
    }
}

/// The two texts of one character are the same only if it is.
proof fn lone_characters()
    ensures
        forall|c: char, d: char| (#[trigger] seq![c] == #[trigger] seq![d]) == (c == d),
{
    assert forall|c: char, d: char| (#[trigger] seq![c] == #[trigger] seq![d]) == (c == d) by {
        single_chars(c, d);
    }
}

/// What each key is for, whatever is on screen. Held down, a key that switches
/// something does so once.
pub proof fn every_key_has_its_use(key: String, c: char, modifiers: Modifiers, repeat: bool)
    requires
        key@ == seq![c],
    ensures
        ({
            let pressed = asked(KeyEvent::Pressed { character: key, modifiers, repeat });
            &&& modifiers.control ==> {
                &&& c == 'a' ==> pressed == Some(KeyAction::Send(Message::SelectAllFrames))
                &&& c == 'c' ==> pressed == Some(KeyAction::Send(Message::CopyEdits))
                &&& c == 'v' ==> pressed == Some(KeyAction::Send(Message::PasteEdits))
                &&& c != 'a' && c != 'c' && c != 'v' ==> pressed is None
            }
            &&& !modifiers.control ==> {
                &&& c == ' ' ==> pressed == Some(KeyAction::Send(Message::ToggleContext))
                &&& c == 'e' ==> pressed == Some(KeyAction::Send(Message::ExportRequested))
                &&& c == 'c' ==> pressed == (if repeat {
                    None
                } else {
                    Some(KeyAction::Send(Message::ToggleCropMode))
                })
                &&& c == '/' ==> pressed == (if modifiers.shift && !repeat {
                    Some(KeyAction::Send(Message::ToggleHelp))
                } else {
                    None
                })
                &&& c == 'h' ==> pressed == Some(KeyAction::Send(Message::Nav(MoveDir::Left)))
                &&& c == 'j' ==> pressed == Some(KeyAction::Send(Message::Nav(MoveDir::Down)))
                &&& c == 'k' ==> pressed == Some(KeyAction::Send(Message::Nav(MoveDir::Up)))
                &&& c == 'l' ==> pressed == Some(KeyAction::Send(Message::Nav(MoveDir::Right)))
                &&& c == '-' || c == '=' ==> (pressed matches Some(KeyAction::Adjust(a)) && a is Exposure)
                &&& c == '[' || c == ']' ==> (pressed matches Some(KeyAction::Adjust(a)) && a is Contrast)
                &&& c == ';' || c == '\'' ==> (pressed matches Some(KeyAction::Adjust(a)) && a is Rolloff)
                &&& c == ',' || c == '.' ==> (pressed matches Some(KeyAction::Adjust(a)) && a is Shadows)
                &&& c == 'r' ==> pressed == Some(KeyAction::Adjust(EditAdjust::RotateCcw))
            }
        }),
        asked(KeyEvent::NamedPressed(NamedKey::Enter)) == Some(
            KeyAction::Send(Message::OpenSelected),
        ),
        asked(KeyEvent::NamedPressed(NamedKey::ArrowLeft)) == Some(
            KeyAction::Send(Message::Nav(MoveDir::Left)),
        ),
        asked(KeyEvent::NamedPressed(NamedKey::ArrowRight)) == Some(
            KeyAction::Send(Message::Nav(MoveDir::Right)),
        ),
        asked(KeyEvent::NamedPressed(NamedKey::ArrowUp)) == Some(
            KeyAction::Send(Message::Nav(MoveDir::Up)),
        ),
        asked(KeyEvent::NamedPressed(NamedKey::ArrowDown)) == Some(
            KeyAction::Send(Message::Nav(MoveDir::Down)),
        ),
        asked(KeyEvent::ModifiersChanged(modifiers)) == Some(
            KeyAction::Send(Message::ModifiersChanged(modifiers)),
        ),
{
    lone_characters();
}

/// Of the two keys of a control the first lowers it and the second raises it by
/// as much, and Shift makes the step smaller.
pub proof fn key_pairs_are_opposite(shift: bool)
    ensures
        ({
            let pairs = seq![('-', '='), ('[', ']'), (';', '\''), (',', '.')];
            forall|i: int|
                0 <= i < 4 ==> {
                    let (down, up) = #[trigger] pairs[i];
                    let low = adjustment(seq![down], shift);
                    let high = adjustment(seq![up], shift);
                    &&& low is Some && high is Some
                    &&& step_of(low.unwrap()).negative() && !step_of(high.unwrap()).negative()
                    &&& step_of(low.unwrap()).magnitude() == step_of(high.unwrap()).magnitude()
                    &&& 0 < step_of(adjustment(seq![up], true).unwrap()).magnitude() < step_of(
                        adjustment(seq![up], false).unwrap(),
                    ).magnitude()
                }
        }),
{
    lone_characters();
}

/// The step of an adjustment.
pub open spec fn step_of(adjust: EditAdjust) -> Single {
    match adjust {
        EditAdjust::Exposure(step) => step,
        EditAdjust::Contrast(step) => step,
        EditAdjust::Rolloff(step) => step,
        EditAdjust::Shadows(step) => step,
        EditAdjust::RotateCcw => Single { bits: 0 },
    }
}

/// A menu entry that has a key does what the key does.
pub proof fn menu_entries_do_what_their_keys_do(
    key: String,
    c: char,
    modifiers: Modifiers,
    samples: Vec<Single>,
)
    requires
        key@ == seq![c],
    ensures
        ({
            let pressed = asked(KeyEvent::Pressed { character: key, modifiers, repeat: false });
            &&& modifiers.control && c == 'a' ==> pressed == Some(
                KeyAction::Send(MenuAction::SelectAll.sends(samples)),
            )
            &&& modifiers.control && c == 'c' ==> pressed == Some(
                KeyAction::Send(MenuAction::CopyEdits.sends(samples)),
            )
            &&& modifiers.control && c == 'v' ==> pressed == Some(
                KeyAction::Send(MenuAction::PasteEdits.sends(samples)),
            )
            &&& !modifiers.control && c == 'e' ==> pressed == Some(
                KeyAction::Send(MenuAction::Export.sends(samples)),
            )
            &&& !modifiers.control && c == 'c' ==> pressed == Some(
                KeyAction::Send(MenuAction::ToggleCropMode.sends(samples)),
            )
            &&& !modifiers.control && c == ' ' ==> pressed == Some(
                KeyAction::Send(MenuAction::Details.sends(samples)),
            )
        }),
        MenuAction::AddRoll.sends(samples) == Message::AddRoll,
        MenuAction::RemoveRoll.sends(samples) == Message::RemoveSelectedRoll,
        MenuAction::Quit.sends(samples) == Message::Quit,
        MenuAction::CalibrateBase.sends(samples) == Message::CalibrateBaseFromFrame(samples),
        MenuAction::About.sends(samples) == Message::ToggleContextPage(ContextPage::About),
{
    lone_characters();
}

} // verus!
