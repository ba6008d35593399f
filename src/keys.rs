use vstd::prelude::*;

verus! {

/// A key of the keyboard, as far as a key binding tells keys apart.
#[derive(Clone, Copy, Debug, PartialEq, Eq, Structural)]
pub enum KeyCode {
    Backspace,
    Enter,
    Left,
    Right,
    Up,
    Down,
    Home,
    End,
    PageUp,
    PageDown,
    Tab,
    BackTab,
    Delete,
    Insert,
    F(u8),
    Char(char),
    Null,
    Esc,
}

/// The modifier keys held during a key press, one bit each
/// (shift `1`, control `2`, alt `4`).
#[derive(Clone, Copy, Debug, PartialEq, Eq, Structural)]
pub struct KeyModifiers {
    pub bits: u8,
}

/// Bit of the shift key.
pub const SHIFT: u8 = 1;

/// Bit of the control key.
pub const CONTROL: u8 = 2;

/// Bit of the alt key.
pub const ALT: u8 = 4;

impl KeyModifiers {
    pub open spec fn spec_none() -> KeyModifiers {
        KeyModifiers { bits: 0 }
    }

    /// No modifier held.
    pub fn none() -> (r: KeyModifiers)
        ensures
            r == KeyModifiers::spec_none(),
    {
        KeyModifiers { bits: 0 }
    }

    /// Shift held.
    pub fn shift() -> (r: KeyModifiers)
        ensures
            r.bits == SHIFT,
    {
        KeyModifiers { bits: SHIFT }
    }

    /// Control held.
    pub fn control() -> (r: KeyModifiers)
        ensures
            r.bits == CONTROL,
    {
        KeyModifiers { bits: CONTROL }
    }

    /// Alt held.
    pub fn alt() -> (r: KeyModifiers)
        ensures
            r.bits == ALT,
    {
        KeyModifiers { bits: ALT }
    }

    pub fn is_empty(&self) -> (r: bool)
        ensures
            r == (self.bits == 0),
    {
        self.bits == 0
    }
}

/// One key press with the modifiers held during it.
#[derive(Clone, Copy, Debug, PartialEq, Eq, Structural)]
pub struct KeyEvent {
    pub code: KeyCode,
    pub modifiers: KeyModifiers,
}

/// One event of the terminal's input.
#[derive(Clone, Copy, Debug, PartialEq, Eq, Structural)]
pub enum Event {
    Key(KeyEvent),
    /// Anything that is not a key press (mouse, resize).
    Other,
}

/// The direction of a move, handed to the observer of selection changes.
#[derive(Clone, Copy, Debug, PartialEq, Eq, Structural)]
pub enum SelectDialogKey {
    UpKey,
    DownKey,
}

/// What one input event does to a running dialog.
#[derive(Clone, Copy, Debug, PartialEq, Eq, Structural)]
pub enum Outcome {
    /// The confirm key: the session is over.
    Confirmed,
    /// A bound up or down key: a move was made (or stopped at the boundary).
    Moved(SelectDialogKey),
    /// Any other event: discarded.
    Ignored,
}

/// The press of `code` with no modifier held.
pub open spec fn plain_press(code: KeyCode) -> Event {
    Event::Key(KeyEvent { code: code, modifiers: KeyModifiers::spec_none() })
}

/// The fixed event that confirms the selection.
pub open spec fn confirm_event() -> Event {
    plain_press(KeyCode::Enter)
}

/// `event` triggers the binding `code`: the same code, no modifier held.
pub open spec fn matches(event: Event, code: KeyCode) -> bool {
    event == plain_press(code)
}

/// `event` triggers one of the bindings in `keys`.
pub open spec fn matches_any(event: Event, keys: Seq<KeyCode>) -> bool {
    exists|i: int| 0 <= i < keys.len() && #[trigger] matches(event, keys[i])
}

/// What `event` does, given the up and down bindings: the confirm key wins,
/// then the up bindings, then the down bindings.
pub open spec fn classify_spec(event: Event, up: Seq<KeyCode>, down: Seq<KeyCode>) -> Outcome {
    if event == confirm_event() {
        Outcome::Confirmed
    } else if matches_any(event, up) {
        Outcome::Moved(SelectDialogKey::UpKey)
    } else if matches_any(event, down) {
        Outcome::Moved(SelectDialogKey::DownKey)
    } else {
        Outcome::Ignored
    }
}

/// Whether `event` is a press of `code` with no modifier held.
pub fn event_matches_key(event: &Event, code: KeyCode) -> (r: bool)
    ensures
        r == matches(*event, code),
{
    match event {
        Event::Key(k) => k.code == code && k.modifiers.is_empty(),
        Event::Other => false,
    }
}

/// Whether `event` triggers one of `keys`; the keys are tried in order.
pub fn event_contains_key(event: &Event, keys: &Vec<KeyCode>) -> (r: bool)
    ensures
        r == matches_any(*event, keys@),
{
    let mut i: usize = 0;
    while i < keys.len()
        invariant
            i <= keys@.len(),
            forall|j: int| 0 <= j < i ==> !matches(*event, #[trigger] keys@[j]),
        decreases keys@.len() - i,
    {
        if event_matches_key(event, keys[i]) {
            return true;
        }
        i += 1;
    }
    false
}

/// Whether `event` triggers one of `keys` or `default`.
pub fn event_triggers(event: &Event, keys: &Vec<KeyCode>, default: KeyCode) -> (r: bool)
    ensures
        r == matches_any(*event, keys@.push(default)),
{
    let found = event_contains_key(event, keys);
    let last = event_matches_key(event, default);
    proof {
        let all = keys@.push(default);
        if found {
            let j = choose|j: int| 0 <= j < keys@.len() && #[trigger] matches(*event, keys@[j]);
            assert(all[j] == keys@[j]);
        }
        if last {
            assert(all[keys@.len() as int] == default);
        }
        if matches_any(*event, all) {
            let j = choose|j: int| 0 <= j < all.len() && #[trigger] matches(*event, all[j]);
            if j < keys@.len() {
                assert(all[j] == keys@[j]);
            }
        }
    }
    found || last
}

/// What `event` does to a dialog that moves up on `up` and `default_up` and
/// down on `down` and `default_down`.
pub fn classify(
    event: &Event,
    up: &Vec<KeyCode>,
    default_up: KeyCode,
    down: &Vec<KeyCode>,
    default_down: KeyCode,
) -> (r: Outcome)
    ensures
        r == classify_spec(*event, up@.push(default_up), down@.push(default_down)),
{
    if event_matches_key(event, KeyCode::Enter) {
        Outcome::Confirmed
    } else if event_triggers(event, up, default_up) {
        Outcome::Moved(SelectDialogKey::UpKey)
    } else if event_triggers(event, down, default_down) {
        Outcome::Moved(SelectDialogKey::DownKey)
    } else {
        Outcome::Ignored
    }
}

/// The confirm key wins over every binding: whatever the up and down keys,
/// a plain press of Enter confirms.
pub proof fn lemma_confirm_wins(up: Seq<KeyCode>, down: Seq<KeyCode>)
    ensures
        classify_spec(confirm_event(), up, down) == Outcome::Confirmed,
{
}

/// A key press with a modifier held triggers no binding, whatever its code,
/// and does nothing to the dialog.
pub proof fn lemma_modifier_never_matches(
    event: KeyEvent,
    up: Seq<KeyCode>,
    down: Seq<KeyCode>,
)
    requires
        event.modifiers.bits != 0,
    ensures
        forall|code: KeyCode| !#[trigger] matches(Event::Key(event), code),
        !matches_any(Event::Key(event), up),
        !matches_any(Event::Key(event), down),
        classify_spec(Event::Key(event), up, down) == Outcome::Ignored,
{
}

} // verus!
