//! Delivering text: whether a text field is active, and the keys that type, erase
//! and paste.
use crate::edit::Edit;
use crate::platform::Os;
use crate::text;
use vstd::prelude::*;

verus! {

/// What macOS says of the element that has the focus.
#[derive(Debug, Clone, PartialEq, Eq)]
#[verifier::ext_equal]
pub struct Focused<T = String> {
    /// Its role; empty where it has none.
    pub role: T,
    /// Whether it has a range of selected text.
    pub has_selection: bool,
    /// Whether its value can be set.
    pub value_settable: bool,
}

impl View for Focused {
    type V = Focused<Seq<char>>;

    open spec fn view(&self) -> Focused<Seq<char>> {
        Focused {
            role: self.role@,
            has_selection: self.has_selection,
            value_settable: self.value_settable,
        }
    }
}

/// What the system says of the focus.
#[derive(Debug, Clone, PartialEq, Eq)]
pub enum FocusProbe {
    /// macOS: whether the application may ask, and the element with the focus.
    MacOs { trusted: bool, element: Option<Focused> },
    /// Windows: whether there is a window in front, whether its thread can be
    /// asked, and whether it has a caret.
    Windows { foreground: bool, answered: bool, caret: bool },
    /// The system cannot be asked.
    Unknown,
}

/// Whether a role is that of a text field.
pub open spec fn text_role(role: Seq<char>) -> bool {
    role == "AXTextField"@ || role == "AXTextArea"@ || role == "AXComboBox"@ || role
        == "AXSearchField"@
}

/// Whether a role is that of an element whose text can be selected but not edited.
pub open spec fn fixed_role(role: Seq<char>) -> bool {
    role == "AXStaticText"@ || role == "AXMenuItem"@ || role == "AXButton"@
}

/// Whether text can be typed into an element: it is a text field; or text is
/// selected in it and its value can be set, or nothing says that it cannot be
/// edited.
pub open spec fn editable(e: Focused<Seq<char>>) -> bool {
    text_role(e.role) || e.value_settable && e.has_selection || e.has_selection && !fixed_role(
        e.role,
    )
}

/// Whether a text field is active.
pub fn focused_text_field(probe: &FocusProbe) -> (b: bool)
    ensures
        b == match *probe {
            FocusProbe::MacOs { trusted, element } => trusted && element is Some && editable(
                element.unwrap()@,
            ),
            FocusProbe::Windows { foreground, answered, caret } => foreground && answered && caret,
            FocusProbe::Unknown => false,
        },
{
    match probe {
        FocusProbe::MacOs { trusted, element } => {
            if !*trusted {
                return false;
            }
            match element {
                Some(e) => {
                    let role = e.role.as_str();
                    let is_text = text::same(role, "AXTextField") || text::same(role, "AXTextArea")
                        || text::same(role, "AXComboBox") || text::same(role, "AXSearchField");
                    let is_fixed = text::same(role, "AXStaticText") || text::same(
                        role,
                        "AXMenuItem",
                    ) || text::same(role, "AXButton");
                    is_text || e.value_settable && e.has_selection || e.has_selection && !is_fixed
                },
                None => false,
            }
        },
        FocusProbe::Windows { foreground, answered, caret } => *foreground && *answered && *caret,
        FocusProbe::Unknown => false,
    }
}

/// Whether the application may type into others: on macOS where the user trusts
/// it, elsewhere always.
pub fn accessibility_trusted(os: Os, process_trusted: bool) -> (b: bool)
    ensures
        b == (os != Os::MacOs || process_trusted),
{
    os != Os::MacOs || process_trusted
}

/// How the user is asked to trust the application: whether the system shows its
/// dialogue, and the page of the system settings that is opened.
pub fn request_accessibility(os: Os) -> (r: (bool, Option<&'static str>))
    ensures
        r.0 == (os == Os::MacOs),
        match r.1 {
            Some(url) => os == Os::MacOs && url@
                == "x-apple.systempreferences:com.apple.preference.security?Privacy_Accessibility"@,
            None => os != Os::MacOs,
        },
{
    if os == Os::MacOs {
        (
            true,
            Some("x-apple.systempreferences:com.apple.preference.security?Privacy_Accessibility"),
        )
    } else {
        (false, None)
    }
}

// ---------------------------------------------------------------------------
// Keys
// ---------------------------------------------------------------------------

/// A key.
#[derive(Debug, Clone, Copy, PartialEq, Eq, Structural)]
pub enum PressedKey {
    Backspace,
    Meta,
    Control,
    /// The key with this character.
    Character(char),
    /// The key at this place of the keyboard.
    Place(u32),
}

/// What is done with the keyboard.
#[derive(Debug, Clone, PartialEq, Eq)]
pub enum KeyAction<T = String> {
    Press(PressedKey),
    Release(PressedKey),
    Click(PressedKey),
    /// Type a text.
    Text(T),
}

impl View for KeyAction {
    type V = KeyAction<Seq<char>>;

    open spec fn view(&self) -> KeyAction<Seq<char>> {
        match *self {
            KeyAction::Press(k) => KeyAction::Press(k),
            KeyAction::Release(k) => KeyAction::Release(k),
            KeyAction::Click(k) => KeyAction::Click(k),
            KeyAction::Text(t) => KeyAction::Text(t@),
        }
    }
}

/// What a list of actions denotes.
pub open spec fn action_views(v: Seq<KeyAction>) -> Seq<KeyAction<Seq<char>>> {
    v.map_values(|a: KeyAction| a@)
}

/// The keys that erase `n` characters.
pub open spec fn erasing(n: nat) -> Seq<KeyAction<Seq<char>>> {
    Seq::new(n, |i: int| KeyAction::Click(PressedKey::Backspace))
}

/// The keys that type a text: none where it is empty.
pub open spec fn typing(t: Seq<char>) -> Seq<KeyAction<Seq<char>>> {
    if t.len() == 0 {
        Seq::empty()
    } else {
        seq![KeyAction::Text(t)]
    }
}

/// The keys that erase `n` characters.
pub fn backspace(n: usize) -> (r: Vec<KeyAction>)
    ensures
        action_views(r@) == erasing(n as nat),
{
    let mut r: Vec<KeyAction> = Vec::new();
    let mut i: usize = 0;
    while i < n
        invariant
            i <= n,
            action_views(r@) == erasing(i as nat),
        decreases n - i,
    {
        let ghost before = r@;
        r.push(KeyAction::Click(PressedKey::Backspace));
        i = i + 1;
        assert(action_views(r@) == action_views(before).push(
            KeyAction::Click(PressedKey::Backspace),
        ));
    }
    r
}

/// The keys that type a text.
pub fn type_text(t: &str) -> (r: Vec<KeyAction>)
    ensures
        action_views(r@) == typing(t@),
{
    let mut r: Vec<KeyAction> = Vec::new();
    if !t.is_empty() {
        r.push(KeyAction::Text(t.to_string()));
    }
    assert(action_views(r@) == typing(t@));
    r
}

/// The keys that make a change to the text in front of the cursor, in order: first
/// what is erased, then what is typed. The first that fails ends it.
pub fn keystrokes(e: &Edit) -> (r: Vec<KeyAction>)
    ensures
        action_views(r@) == erasing(e.delete as nat) + typing(e.text@),
{
    let mut r = backspace(e.delete);
    let mut t = type_text(e.text.as_str());
    let ghost (a, b) = (r@, t@);
    r.append(&mut t);
    assert(action_views(r@) == action_views(a) + action_views(b));
    r
}

/// The key that is held to paste.
pub open spec fn paste_modifier(os: Os) -> PressedKey {
    if os == Os::MacOs {
        PressedKey::Meta
    } else {
        PressedKey::Control
    }
}

/// The key that pastes. On macOS it is named by its place on the keyboard.
pub open spec fn paste_key(os: Os) -> PressedKey {
    if os == Os::MacOs {
        PressedKey::Place(9)
    } else {
        PressedKey::Character('v')
    }
}

/// The keys that paste: the modifier is held while the key is struck.
pub open spec fn pasting(os: Os) -> Seq<KeyAction<Seq<char>>> {
    seq![
        KeyAction::Press(paste_modifier(os)),
        KeyAction::Click(paste_key(os)),
        KeyAction::Release(paste_modifier(os)),
    ]
}

/// The keys that paste. The modifier is released also where the key in between
/// fails.
pub fn send_paste(os: Os) -> (r: Vec<KeyAction>)
    ensures
        action_views(r@) == pasting(os),
{
    let (modifier, key) = if os == Os::MacOs {
        (PressedKey::Meta, PressedKey::Place(9))
    } else {
        (PressedKey::Control, PressedKey::Character('v'))
    };
    let r = vec![KeyAction::Press(modifier), KeyAction::Click(key), KeyAction::Release(modifier)];
    assert(action_views(r@) == pasting(os));
    r
}

/// The error that pasting ends with: that of the modifier comes before that of the
/// key in between.
pub fn paste_error(press: Option<String>, click: Option<String>, release: Option<String>) -> (r:
    Option<String>)
    ensures
        r == match press {
            Some(e) => Some(e),
            None => match release {
                Some(e) => Some(e),
                None => click,
            },
        },
{
    match press {
        Some(e) => Some(e),
        None => match release {
            Some(e) => Some(e),
            None => click,
        },
    }
}

/// How long is waited between copying and pasting, in milliseconds.
pub const PASTE_DELAY_MS: u64 = 40;

/// After how long the clipboard gets its earlier text back, in milliseconds.
pub const RESTORE_DELAY_MS: u64 = 350;

/// A text field is always typed into where it says that it is one.
pub proof fn text_fields_are_editable(e: Focused<Seq<char>>)
    requires
        text_role(e.role),
    ensures
        editable(e),
{
}

/// Without a selection only text fields count.
pub proof fn other_elements_need_a_selection(e: Focused<Seq<char>>)
    requires
        !e.has_selection,
    ensures
        editable(e) == text_role(e.role),
{
}

/// The grapheme clusters in front of the cursor once keys were used: the backspace key
/// takes the last of them away, and a text that is typed comes behind them. Other keys
/// change nothing.
pub open spec fn after_keys(field: Seq<Seq<char>>, keys: Seq<KeyAction<Seq<char>>>) -> Seq<
    Seq<char>,
>
    decreases keys.len(),
{
    if keys.len() == 0 {
        field
    } else {
        let before = after_keys(field, keys.drop_last());
        match keys.last() {
            KeyAction::Click(PressedKey::Backspace) => if before.len() > 0 {
                before.drop_last()
            } else {
                before
            },
            KeyAction::Text(t) => before.push(t),
            _ => before,
        }
    }
}

/// Using the keys of an edit erases as many grapheme clusters as it says, from the end,
/// and then types its text.
pub proof fn keys_make_the_edit(field: Seq<Seq<char>>, n: nat, t: Seq<char>)
    requires
        n <= field.len(),
    ensures
        after_keys(field, erasing(n)) == field.take(field.len() - n),
        after_keys(field, erasing(n) + typing(t)).flatten() == field.take(
            field.len() - n,
        ).flatten() + t,
    decreases n,
{
    let kept = field.take(field.len() - n);
    if n > 0 {
        keys_make_the_edit(field, (n - 1) as nat, t);
        assert(erasing(n).drop_last() == erasing((n - 1) as nat));
        let before = field.take(field.len() - (n - 1));
        assert(before.drop_last() == kept);
    } else {
        assert(erasing(0) == Seq::<KeyAction<Seq<char>>>::empty());
        assert(kept == field);
    }
    assert(after_keys(field, erasing(n)) == kept);
    let keys = erasing(n) + typing(t);
    if t.len() == 0 {
        assert(keys == erasing(n));
        assert(kept.flatten() + t == kept.flatten());
    } else {
        assert(keys.drop_last() == erasing(n));
        assert(keys.last() == KeyAction::Text(t));
        assert(after_keys(field, keys.drop_last()) == kept);
        assert(keys.len() > 0);
        assert(after_keys(field, keys) == kept.push(t));
        kept.lemma_flatten_push(t);
    }
}

/// Pasting holds the command key on macOS and the control key elsewhere, uses the key
/// `V` meanwhile, and releases what was held.
pub proof fn pasting_releases_what_it_holds(os: Os)
    ensures
        pasting(os).len() == 3,
        pasting(os)[0] == KeyAction::<Seq<char>>::Press(
            if os == Os::MacOs {
                PressedKey::Meta
            } else {
                PressedKey::Control
            },
        ),
        pasting(os)[1] == KeyAction::<Seq<char>>::Click(
            if os == Os::MacOs {
                PressedKey::Place(9)
            } else {
                PressedKey::Character('v')
            },
        ),
        pasting(os)[0] matches KeyAction::Press(k) ==> pasting(os)[2] == KeyAction::<
            Seq<char>,
        >::Release(k),
{
}

/// An element that is no text field is editable where text is selected in it and its
/// value can be set, or it has a role other than that of a label, a menu entry or a
/// button.
pub proof fn selections_tell_fields(e: Focused<Seq<char>>)
    requires
        e.role != "AXTextField"@,
        e.role != "AXTextArea"@,
        e.role != "AXComboBox"@,
        e.role != "AXSearchField"@,
    ensures
        editable(e) <==> e.has_selection && (e.value_settable || (e.role != "AXStaticText"@ && e.role
            != "AXMenuItem"@ && e.role != "AXButton"@)),
{
}

}
