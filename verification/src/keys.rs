//! Keys as the client and the navigator see them, the workspace keybinds, and
//! which key presses reorder workspaces.

use vstd::prelude::*;
use crate::text::char_to_string;

verus! {

/// The key of a key press.
#[derive(Clone, Copy, Debug, PartialEq, Eq, Structural)]
pub enum KeyCode {
    Char(char),
    Enter,
    Esc,
    Up,
    Down,
    Left,
    Right,
    Tab,
    Backspace,
    Other,
}

/// Modifier keys held during a key press.
#[derive(Clone, Copy, Debug, PartialEq, Eq, Structural)]
pub struct KeyModifiers {
    pub shift: bool,
    pub ctrl: bool,
    pub alt: bool,
}

impl KeyModifiers {
    /// No modifier held.
    pub fn empty() -> (m: Self)
        ensures
            !m.shift && !m.ctrl && !m.alt,
    {
        KeyModifiers { shift: false, ctrl: false, alt: false }
    }

    /// Only shift held.
    pub fn shift() -> (m: Self)
        ensures
            m.shift && !m.ctrl && !m.alt,
    {
        KeyModifiers { shift: true, ctrl: false, alt: false }
    }

    /// Only control held.
    pub fn ctrl() -> (m: Self)
        ensures
            !m.shift && m.ctrl && !m.alt,
    {
        KeyModifiers { shift: false, ctrl: true, alt: false }
    }
}

/// A key press.
#[derive(Clone, Copy, Debug, PartialEq, Eq, Structural)]
pub struct TerminalKey {
    pub code: KeyCode,
    pub modifiers: KeyModifiers,
}

impl TerminalKey {
    pub fn new(code: KeyCode, modifiers: KeyModifiers) -> (key: Self)
        ensures
            key.code == code,
            key.modifiers == modifiers,
    {
        TerminalKey { code, modifiers }
    }
}

/// Direction of a workspace reorder.
#[derive(Clone, Copy, Debug, PartialEq, Eq, Structural)]
pub enum WorkspaceReorderDirection {
    Up,
    Down,
}

/// `shift+k` moves the selected project up, `shift+j` down. Terminals
/// usually deliver a shifted letter as its uppercase char; some send the
/// lowercase char with the shift modifier set. Both count.
pub open spec fn reorder_direction_spec(key: TerminalKey) -> Option<WorkspaceReorderDirection> {
    match key.code {
        KeyCode::Char(c) => if c == 'K' || (c == 'k' && key.modifiers.shift) {
            Some(WorkspaceReorderDirection::Up)
        } else if c == 'J' || (c == 'j' && key.modifiers.shift) {
            Some(WorkspaceReorderDirection::Down)
        } else {
            None
        },
        _ => None,
    }
}

/// Maps a key press to a reorder direction, or `None` when it is not a
/// reorder shortcut.
pub fn reorder_direction_for_key(key: &TerminalKey) -> (direction: Option<WorkspaceReorderDirection>)
    ensures
        direction == reorder_direction_spec(*key),
{
    let shift = key.modifiers.shift;
    match key.code {
        KeyCode::Char('K') => Some(WorkspaceReorderDirection::Up),
        KeyCode::Char('J') => Some(WorkspaceReorderDirection::Down),
        KeyCode::Char('k') if shift => Some(WorkspaceReorderDirection::Up),
        KeyCode::Char('j') if shift => Some(WorkspaceReorderDirection::Down),
        _ => None,
    }
}

/// A `shift+letter` binding, given as the letter's lower- and uppercase form.
#[derive(Clone, Copy, Debug, PartialEq, Eq, Structural)]
pub struct ShiftedLetter {
    pub lower: char,
    pub upper: char,
}

/// Whether a key press is the shifted letter, in either representation.
pub open spec fn shifted_letter_matches(binding: ShiftedLetter, key: TerminalKey) -> bool {
    key.code == KeyCode::Char(binding.upper) || (key.code == KeyCode::Char(binding.lower) && key.modifiers.shift)
}

/// Whether a key press is the shifted letter, in either representation.
pub fn shifted_letter_matches_key(binding: &ShiftedLetter, key: &TerminalKey) -> (matches: bool)
    ensures
        matches == shifted_letter_matches(*binding, *key),
{
    match key.code {
        KeyCode::Char(c) => c == binding.upper || (c == binding.lower && key.modifiers.shift),
        _ => false,
    }
}

/// Actions reachable through keybinds.
#[derive(Clone, Copy, Debug, PartialEq, Eq, Structural)]
pub enum KeybindAction {
    NextWorkspace,
    PreviousWorkspace,
    OpenWorkspacePicker,
    MoveWorkspacePrevious,
    MoveWorkspaceNext,
    MoveWorktreeToWorkspace,
    AcknowledgeWorkspace,
}

/// The result of resolving a key after the prefix.
#[derive(Clone, Copy, Debug, PartialEq, Eq, Structural)]
pub enum KeybindMatch {
    Action(KeybindAction),
}

/// The workspace keybinds, each reached after the prefix key.
#[derive(Clone, Copy, Debug, PartialEq, Eq, Structural)]
pub struct WorkspaceKeybinds {
    /// The prefix key.
    pub prefix: TerminalKey,
    pub move_worktree: Option<ShiftedLetter>,
    pub acknowledge: Option<ShiftedLetter>,
    pub move_workspace_previous: Option<ShiftedLetter>,
    pub move_workspace_next: Option<ShiftedLetter>,
}

impl WorkspaceKeybinds {
    /// The defaults: `ctrl+b` as prefix, `prefix+shift+m` opens the move
    /// picker, `prefix+shift+a` acknowledges; keyboard reorder is unset.
    pub fn default_keybinds() -> (keybinds: Self)
        ensures
            keybinds.prefix == (TerminalKey { code: KeyCode::Char('b'), modifiers: KeyModifiers { shift: false, ctrl: true, alt: false } }),
            keybinds.move_worktree == Some(ShiftedLetter { lower: 'm', upper: 'M' }),
            keybinds.acknowledge == Some(ShiftedLetter { lower: 'a', upper: 'A' }),
            keybinds.move_workspace_previous is None,
            keybinds.move_workspace_next is None,
    {
        WorkspaceKeybinds {
            prefix: TerminalKey { code: KeyCode::Char('b'), modifiers: KeyModifiers::ctrl() },
            move_worktree: Some(ShiftedLetter { lower: 'm', upper: 'M' }),
            acknowledge: Some(ShiftedLetter { lower: 'a', upper: 'A' }),
            move_workspace_previous: None,
            move_workspace_next: None,
        }
    }
}

/// Whether an optional binding is set and matches the key.
pub open spec fn binding_matches(binding: Option<ShiftedLetter>, key: TerminalKey) -> bool {
    match binding {
        Some(b) => shifted_letter_matches(b, key),
        None => false,
    }
}

/// The workspace action a key after the prefix resolves to. Bindings are tried
/// in a fixed order: move picker, acknowledge, move up, move down.
pub open spec fn workspace_binding_spec(keybinds: WorkspaceKeybinds, key: TerminalKey) -> Option<KeybindAction> {
    if binding_matches(keybinds.move_worktree, key) {
        Some(KeybindAction::MoveWorktreeToWorkspace)
    } else if binding_matches(keybinds.acknowledge, key) {
        Some(KeybindAction::AcknowledgeWorkspace)
    } else if binding_matches(keybinds.move_workspace_previous, key) {
        Some(KeybindAction::MoveWorkspacePrevious)
    } else if binding_matches(keybinds.move_workspace_next, key) {
        Some(KeybindAction::MoveWorkspaceNext)
    } else {
        None
    }
}

fn optional_binding_matches(binding: &Option<ShiftedLetter>, key: &TerminalKey) -> (matches: bool)
    ensures
        matches == binding_matches(*binding, *key),
{
    match binding {
        Some(b) => shifted_letter_matches_key(b, key),
        None => false,
    }
}

/// Resolves a key pressed after the prefix against the workspace keybinds.
pub fn resolve_workspace_binding(keybinds: &WorkspaceKeybinds, key: &TerminalKey) -> (action: Option<KeybindAction>)
    ensures
        action == workspace_binding_spec(*keybinds, *key),
{
    if optional_binding_matches(&keybinds.move_worktree, key) {
        Some(KeybindAction::MoveWorktreeToWorkspace)
    } else if optional_binding_matches(&keybinds.acknowledge, key) {
        Some(KeybindAction::AcknowledgeWorkspace)
    } else if optional_binding_matches(&keybinds.move_workspace_previous, key) {
        Some(KeybindAction::MoveWorkspacePrevious)
    } else if optional_binding_matches(&keybinds.move_workspace_next, key) {
        Some(KeybindAction::MoveWorkspaceNext)
    } else {
        None
    }
}

/// The help text of an optional binding: `prefix+shift+<letter>`, or `unset`.
pub open spec fn binding_label_spec(binding: Option<ShiftedLetter>) -> Seq<char> {
    match binding {
        Some(b) => "prefix+shift+"@ + seq![b.lower],
        None => "unset"@,
    }
}

fn binding_label(binding: &Option<ShiftedLetter>) -> (label: String)
    ensures
        label@ == binding_label_spec(*binding),
{
    match binding {
        Some(b) => {
            let mut label = "prefix+shift+".to_owned();
            let letter = char_to_string(b.lower);
            label.append(letter.as_str());
            label
        },
        None => "unset".to_owned(),
    }
}

/// The help listing of the workspace keybinds: (binding, description) pairs.
pub open spec fn keybind_help_spec(keybinds: WorkspaceKeybinds) -> Seq<(Seq<char>, Seq<char>)> {
    seq![
        (binding_label_spec(keybinds.move_worktree), "move worktree to workspace"@),
        (binding_label_spec(keybinds.acknowledge), "acknowledge done markers"@),
        (binding_label_spec(keybinds.move_workspace_previous), "move workspace up"@),
        (binding_label_spec(keybinds.move_workspace_next), "move workspace down"@),
    ]
}

/// The view of a help listing.
pub open spec fn help_view(entries: Seq<(String, String)>) -> Seq<(Seq<char>, Seq<char>)> {
    entries.map_values(|e: (String, String)| (e.0@, e.1@))
}

/// The help listing of the workspace keybinds, as shown by `prefix+?`.
pub fn keybind_help_entries(keybinds: &WorkspaceKeybinds) -> (entries: Vec<(String, String)>)
    ensures
        help_view(entries@) == keybind_help_spec(*keybinds),
{
    let mut entries: Vec<(String, String)> = Vec::new();
    entries.push((binding_label(&keybinds.move_worktree), "move worktree to workspace".to_owned()));
    entries.push((binding_label(&keybinds.acknowledge), "acknowledge done markers".to_owned()));
    entries.push((binding_label(&keybinds.move_workspace_previous), "move workspace up".to_owned()));
    entries.push((binding_label(&keybinds.move_workspace_next), "move workspace down".to_owned()));
    assert(help_view(entries@) =~= keybind_help_spec(*keybinds));
    entries
}

/// The key a single input byte stands for: control bytes for Tab, Enter,
/// Escape, Backspace and `ctrl+letter`; printable ASCII as that character
/// (shifted for an uppercase letter); anything else as an unknown key.
pub open spec fn byte_key_spec(b: u8) -> TerminalKey {
    if b == 0x09 {
        TerminalKey { code: KeyCode::Tab, modifiers: KeyModifiers { shift: false, ctrl: false, alt: false } }
    } else if b == 0x0d || b == 0x0a {
        TerminalKey { code: KeyCode::Enter, modifiers: KeyModifiers { shift: false, ctrl: false, alt: false } }
    } else if b == 0x1b {
        TerminalKey { code: KeyCode::Esc, modifiers: KeyModifiers { shift: false, ctrl: false, alt: false } }
    } else if b == 0x7f {
        TerminalKey { code: KeyCode::Backspace, modifiers: KeyModifiers { shift: false, ctrl: false, alt: false } }
    } else if 1 <= b && b <= 26 {
        TerminalKey { code: KeyCode::Char(((b + 96) as u8) as char), modifiers: KeyModifiers { shift: false, ctrl: true, alt: false } }
    } else if 0x20 <= b && b <= 0x7e {
        TerminalKey { code: KeyCode::Char(b as char), modifiers: KeyModifiers { shift: 0x41 <= b && b <= 0x5a, ctrl: false, alt: false } }
    } else {
        TerminalKey { code: KeyCode::Other, modifiers: KeyModifiers { shift: false, ctrl: false, alt: false } }
    }
}

/// The arrow key an `ESC [ x` sequence ends in, if any.
pub open spec fn arrow_spec(b: u8) -> Option<KeyCode> {
    if b == 0x41 {
        Some(KeyCode::Up)
    } else if b == 0x42 {
        Some(KeyCode::Down)
    } else if b == 0x43 {
        Some(KeyCode::Right)
    } else if b == 0x44 {
        Some(KeyCode::Left)
    } else {
        None
    }
}

/// The keys that the input bytes from position `i` encode.
pub open spec fn decode_from(bytes: Seq<u8>, i: int) -> Seq<TerminalKey>
    decreases bytes.len() - i,
{
    if i < 0 || i >= bytes.len() {
        Seq::empty()
    } else if bytes[i] == 0x1b && i + 2 < bytes.len() && bytes[i + 1] == 0x5b && arrow_spec(bytes[i + 2]) is Some {
        seq![TerminalKey { code: arrow_spec(bytes[i + 2]).unwrap(), modifiers: KeyModifiers { shift: false, ctrl: false, alt: false } }]
            + decode_from(bytes, i + 3)
    } else {
        seq![byte_key_spec(bytes[i])] + decode_from(bytes, i + 1)
    }
}

fn byte_key(b: u8) -> (key: TerminalKey)
    ensures
        key == byte_key_spec(b),
{
    if b == 0x09 {
        TerminalKey { code: KeyCode::Tab, modifiers: KeyModifiers::empty() }
    } else if b == 0x0d || b == 0x0a {
        TerminalKey { code: KeyCode::Enter, modifiers: KeyModifiers::empty() }
    } else if b == 0x1b {
        TerminalKey { code: KeyCode::Esc, modifiers: KeyModifiers::empty() }
    } else if b == 0x7f {
        TerminalKey { code: KeyCode::Backspace, modifiers: KeyModifiers::empty() }
    } else if 1 <= b && b <= 26 {
        TerminalKey { code: KeyCode::Char((b + 96) as char), modifiers: KeyModifiers::ctrl() }
    } else if 0x20 <= b && b <= 0x7e {
        TerminalKey { code: KeyCode::Char(b as char), modifiers: KeyModifiers { shift: 0x41 <= b && b <= 0x5a, ctrl: false, alt: false } }
    } else {
        TerminalKey { code: KeyCode::Other, modifiers: KeyModifiers::empty() }
    }
}

fn arrow(b: u8) -> (code: Option<KeyCode>)
    ensures
        code == arrow_spec(b),
{
    if b == 0x41 {
        Some(KeyCode::Up)
    } else if b == 0x42 {
        Some(KeyCode::Down)
    } else if b == 0x43 {
        Some(KeyCode::Right)
    } else if b == 0x44 {
        Some(KeyCode::Left)
    } else {
        None
    }
}

/// Decodes raw terminal input bytes into key presses: single bytes, and the
/// `ESC [ A`..`ESC [ D` arrow sequences.
pub fn decode_input_bytes(bytes: &[u8]) -> (keys: Vec<TerminalKey>)
    ensures
        keys@ == decode_from(bytes@, 0),
{
    let mut keys: Vec<TerminalKey> = Vec::new();
    let mut i: usize = 0;
    while i < bytes.len()
        invariant
            i <= bytes@.len(),
            keys@ + decode_from(bytes@, i as int) == decode_from(bytes@, 0),
        decreases bytes@.len() - i,
    {
        let b = bytes[i];
        if b == 0x1b && bytes.len() - i > 2 && bytes[i + 1] == 0x5b && arrow(bytes[i + 2]).is_some() {
            let code = arrow(bytes[i + 2]).unwrap();
            let key = TerminalKey { code, modifiers: KeyModifiers::empty() };
            assert(keys@.push(key) + decode_from(bytes@, i + 3) == keys@ + decode_from(bytes@, i as int));
            keys.push(key);
            i += 3;
        } else {
            let key = byte_key(b);
            assert(keys@.push(key) + decode_from(bytes@, i + 1) == keys@ + decode_from(bytes@, i as int));
            keys.push(key);
            i += 1;
        }
    }
    assert(keys@ + decode_from(bytes@, i as int) == keys@);
    keys
}

} // verus!
