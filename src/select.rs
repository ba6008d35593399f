use vstd::prelude::*;

use crate::keys::{classify, classify_spec, confirm_event, Event, KeyCode, Outcome, SelectDialogKey};
use crate::line::Line;

verus! {

/// A dialog set up in a way that cannot work.
#[derive(Clone, Copy, Debug, PartialEq, Eq, Structural)]
pub enum ConfigError {
    /// There is nothing to choose from.
    EmptyItems,
    /// Enter confirms; it cannot also move the selection.
    ConfirmKeyAsMoveKey,
}

/// The selection after a move in `dir` from `sel` in a list of `len` items:
/// one step, stopping at the first and last item.
pub open spec fn step(sel: int, len: int, dir: SelectDialogKey) -> int {
    match dir {
        SelectDialogKey::UpKey => if sel == 0 { sel } else { sel - 1 },
        SelectDialogKey::DownKey => if sel == len - 1 { sel } else { sel + 1 },
    }
}

/// The selection after an event with outcome `o`: only a move changes it.
pub open spec fn after(sel: int, len: int, o: Outcome) -> int {
    match o {
        Outcome::Moved(dir) => step(sel, len, dir),
        _ => sel,
    }
}

/// A move keeps the selection on an item.
pub proof fn lemma_step_in_range(sel: int, len: int, dir: SelectDialogKey)
    requires
        0 <= sel < len,
    ensures
        0 <= step(sel, len, dir) < len,
{
}

/// A move past the first or the last item leaves the selection where it is.
pub proof fn lemma_step_at_boundary(len: int)
    requires
        len > 0,
    ensures
        step(0, len, SelectDialogKey::UpKey) == 0,
        step(len - 1, len, SelectDialogKey::DownKey) == len - 1,
{
}

/// Away from the boundaries a move goes exactly one item up or down.
pub proof fn lemma_step_is_one(sel: int, len: int)
    requires
        0 <= sel < len,
    ensures
        sel > 0 ==> step(sel, len, SelectDialogKey::UpKey) == sel - 1,
        sel < len - 1 ==> step(sel, len, SelectDialogKey::DownKey) == sel + 1,
{
}

/// The selection after a session that starts at `sel` and is fed `events`:
/// each event acts as `classify_spec` says, and the first confirm ends it.
pub open spec fn replay(
    sel: int,
    len: int,
    up: Seq<KeyCode>,
    down: Seq<KeyCode>,
    events: Seq<Event>,
) -> int
    decreases events.len(),
{
    if events.len() == 0 {
        sel
    } else {
        let o = classify_spec(events[0], up, down);
        if o == Outcome::Confirmed {
            sel
        } else {
            replay(after(sel, len, o), len, up, down, events.drop_first())
        }
    }
}

/// Once the confirm event has come, nothing after it counts: a session fed
/// `events`, which hold a confirm, ends where it ends when fed `events`
/// followed by any `more`.
pub proof fn lemma_confirm_is_final(
    sel: int,
    len: int,
    up: Seq<KeyCode>,
    down: Seq<KeyCode>,
    events: Seq<Event>,
    more: Seq<Event>,
)
    requires
        events.contains(confirm_event()),
    ensures
        replay(sel, len, up, down, events + more) == replay(sel, len, up, down, events),
    decreases events.len(),
{
    let all = events + more;
    assert(all[0] == events[0]);
    if classify_spec(events[0], up, down) != Outcome::Confirmed {
        let o = classify_spec(events[0], up, down);
        let j = choose|j: int| 0 <= j < events.len() && events[j] == confirm_event();
        assert(j != 0);
        assert(events.drop_first()[j - 1] == confirm_event());
        assert(all.drop_first() =~= events.drop_first() + more);
        lemma_confirm_is_final(after(sel, len, o), len, up, down, events.drop_first(), more);
    }
}

/// Every state a session can reach from an item keeps the selection on an
/// item, whatever the events and the bindings.
pub proof fn lemma_replay_in_range(
    sel: int,
    len: int,
    up: Seq<KeyCode>,
    down: Seq<KeyCode>,
    events: Seq<Event>,
)
    requires
        0 <= sel < len,
    ensures
        0 <= replay(sel, len, up, down, events) < len,
    decreases events.len(),
{
    if events.len() > 0 {
        let o = classify_spec(events[0], up, down);
        if o != Outcome::Confirmed {
            if let Outcome::Moved(dir) = o {
                lemma_step_in_range(sel, len, dir);
            }
            lemma_replay_in_range(after(sel, len, o), len, up, down, events.drop_first());
        }
    }
}

/// Replaying one more event that is not a confirm takes one more step.
proof fn lemma_replay_extend(
    sel: int,
    len: int,
    up: Seq<KeyCode>,
    down: Seq<KeyCode>,
    events: Seq<Event>,
    e: Event,
)
    requires
        forall|j: int| 0 <= j < events.len() ==> events[j] != confirm_event(),
        e != confirm_event(),
    ensures
        replay(sel, len, up, down, events.push(e)) == after(
            replay(sel, len, up, down, events),
            len,
            classify_spec(e, up, down),
        ),
    decreases events.len(),
{
    if events.len() > 0 {
        let o = classify_spec(events[0], up, down);
        assert(events[0] != confirm_event());
        assert(events.push(e).drop_first() =~= events.drop_first().push(e));
        assert(events.push(e)[0] == events[0]);
        assert forall|j: int| 0 <= j < events.drop_first().len() implies events.drop_first()[j]
            != confirm_event() by {
            assert(events.drop_first()[j] == events[j + 1]);
        }
        lemma_replay_extend(after(sel, len, o), len, up, down, events.drop_first(), e);
    } else {
        let o = classify_spec(e, up, down);
        assert(events.push(e)[0] == e);
        assert(events.push(e).drop_first() =~= Seq::<Event>::empty());
        assert(replay(after(sel, len, o), len, up, down, Seq::<Event>::empty()) == after(
            sel,
            len,
            o,
        ));
        assert(replay(sel, len, up, down, events) == sel);
    }
}

/// With a confirm at the end of events that hold no other one, replay stops there.
proof fn lemma_replay_stops(
    sel: int,
    len: int,
    up: Seq<KeyCode>,
    down: Seq<KeyCode>,
    events: Seq<Event>,
)
    requires
        forall|j: int| 0 <= j < events.len() ==> events[j] != confirm_event(),
    ensures
        replay(sel, len, up, down, events.push(confirm_event())) == replay(
            sel,
            len,
            up,
            down,
            events,
        ),
    decreases events.len(),
{
    if events.len() > 0 {
        let o = classify_spec(events[0], up, down);
        assert(events.push(confirm_event()).drop_first() =~= events.drop_first().push(
            confirm_event(),
        ));
        assert(events.push(confirm_event())[0] == events[0]);
        assert(events[0] != confirm_event());
        assert forall|j: int| 0 <= j < events.drop_first().len() implies events.drop_first()[j]
            != confirm_event() by {
            assert(events.drop_first()[j] == events[j + 1]);
        }
        lemma_replay_stops(after(sel, len, o), len, up, down, events.drop_first());
    }
}

/// Adding a key other than Enter to keys without Enter gives keys without Enter.
proof fn lemma_push_keeps_out(keys: Seq<KeyCode>, key: KeyCode)
    ensures
        !keys.push(key).contains(KeyCode::Enter) <==> (!keys.contains(KeyCode::Enter) && key
            != KeyCode::Enter),
{
    let all = keys.push(key);
    if keys.contains(KeyCode::Enter) {
        let j = choose|j: int| 0 <= j < keys.len() && keys[j] == KeyCode::Enter;
        assert(all[j] == KeyCode::Enter);
    }
    if key == KeyCode::Enter {
        assert(all[keys.len() as int] == KeyCode::Enter);
    }
    if all.contains(KeyCode::Enter) {
        let j = choose|j: int| 0 <= j < all.len() && all[j] == KeyCode::Enter;
        if j < keys.len() {
            assert(keys[j] == KeyCode::Enter);
        }
    }
}

/// An interactive single-selection menu over `items`.
///
/// Configure it, `start` it with the items' texts, then hand it each input
/// event with `handle_event` until that returns `Outcome::Confirmed`;
/// `selected` is then the chosen item.
pub struct Select<'a, I> {
    items: &'a Vec<I>,
    lines: Vec<Line>,
    selected_item: usize,
    pointer: char,
    not_selected_pointer: Option<char>,
    default_up: KeyCode,
    default_down: KeyCode,
    up_keys: Vec<KeyCode>,
    down_keys: Vec<KeyCode>,
    move_selected_item_forward: bool,
    underline_selected_item: bool,
}

impl<'a, I> Select<'a, I> {
    pub closed spec fn items(&self) -> Seq<I> {
        self.items@
    }

    /// The index of the highlighted item.
    pub closed spec fn selection(&self) -> int {
        self.selected_item as int
    }

    pub closed spec fn lines_spec(&self) -> Seq<Line> {
        self.lines@
    }

    pub closed spec fn pointer_spec(&self) -> char {
        self.pointer
    }

    pub closed spec fn not_selected_spec(&self) -> Option<char> {
        self.not_selected_pointer
    }

    /// The glyph of the rows that are not selected: a space unless one was set.
    pub open spec fn idle_glyph(&self) -> char {
        match self.not_selected_spec() {
            Some(c) => c,
            None => ' ',
        }
    }

    pub closed spec fn forward_spec(&self) -> bool {
        self.move_selected_item_forward
    }

    pub closed spec fn underline_spec(&self) -> bool {
        self.underline_selected_item
    }

    pub closed spec fn default_up_spec(&self) -> KeyCode {
        self.default_up
    }

    pub closed spec fn default_down_spec(&self) -> KeyCode {
        self.default_down
    }

    /// The keys added to move up, in order.
    pub closed spec fn up_keys_spec(&self) -> Seq<KeyCode> {
        self.up_keys@
    }

    /// The keys added to move down, in order.
    pub closed spec fn down_keys_spec(&self) -> Seq<KeyCode> {
        self.down_keys@
    }

    /// Every key that moves up: the added ones, then the default.
    pub open spec fn up_bindings(&self) -> Seq<KeyCode> {
        self.up_keys_spec().push(self.default_up_spec())
    }

    /// Every key that moves down: the added ones, then the default.
    pub open spec fn down_bindings(&self) -> Seq<KeyCode> {
        self.down_keys_spec().push(self.default_down_spec())
    }

    /// The session has begun: there is a row for each item.
    pub open spec fn started(&self) -> bool {
        self.lines_spec().len() == self.items().len()
    }

    /// The dialog's invariant: there are items, the selection is one of them,
    /// Enter is bound to no move, and the rows are either not built yet or one
    /// per item.
    pub open spec fn wf(&self) -> bool {
        &&& self.items().len() > 0
        &&& 0 <= self.selection() < self.items().len()
        &&& !self.up_bindings().contains(KeyCode::Enter)
        &&& !self.down_bindings().contains(KeyCode::Enter)
        &&& (self.lines_spec().len() == 0 || self.started())
    }

    /// The rows show the current state: row `i` holds the text of item `i`,
    /// only the selected row is selected, and it alone is underlined or moved
    /// forward where the dialog asks for that.
    pub open spec fn lines_show_state(&self, texts: Seq<Seq<char>>) -> bool {
        &&& self.lines_spec().len() == texts.len()
        &&& forall|i: int|
            0 <= i < texts.len() ==> {
                let l = #[trigger] self.lines_spec()[i];
                &&& l.text@ == texts[i]
                &&& l.pointer == self.pointer_spec()
                &&& l.not_selected_pointer == self.idle_glyph()
                &&& l.selected == (i == self.selection())
                &&& l.underlined == (i == self.selection() && self.underline_spec())
                &&& l.indent == (if i == self.selection() && self.forward_spec() {
                    1u32
                } else {
                    0u32
                })
            }
    }

    /// The texts of the rows.
    pub open spec fn texts(&self) -> Seq<Seq<char>> {
        Seq::new(self.lines_spec().len(), |i: int| self.lines_spec()[i].text@)
    }

    /// Everything but the selection and the rows is the same in `self` and `o`.
    pub open spec fn same_config(&self, o: &Self) -> bool {
        &&& self.items() == o.items()
        &&& self.pointer_spec() == o.pointer_spec()
        &&& self.not_selected_spec() == o.not_selected_spec()
        &&& self.forward_spec() == o.forward_spec()
        &&& self.underline_spec() == o.underline_spec()
        &&& self.default_up_spec() == o.default_up_spec()
        &&& self.default_down_spec() == o.default_down_spec()
        &&& self.up_keys_spec() == o.up_keys_spec()
        &&& self.down_keys_spec() == o.down_keys_spec()
    }

    /// A dialog over `items` with the first item selected, the pointer `>`,
    /// the arrow keys bound and no style option; an empty list is refused.
    pub fn new(items: &'a Vec<I>) -> (r: Result<Self, ConfigError>)
        ensures
            r is Ok <==> items@.len() > 0,
            r is Err ==> r->Err_0 == ConfigError::EmptyItems,
            r is Ok ==> {
                let s = r->Ok_0;
                &&& s.wf()
                &&& s.items() == items@
                &&& s.selection() == 0
                &&& s.lines_spec().len() == 0
                &&& s.pointer_spec() == '>'
                &&& s.not_selected_spec() is None
                &&& !s.forward_spec()
                &&& !s.underline_spec()
                &&& s.default_up_spec() == KeyCode::Up
                &&& s.default_down_spec() == KeyCode::Down
                &&& s.up_keys_spec() == Seq::<KeyCode>::empty()
                &&& s.down_keys_spec() == Seq::<KeyCode>::empty()
            },
    {
        if items.len() == 0 {
            return Err(ConfigError::EmptyItems);
        }
        let s = Select {
            items,
            pointer: '>',
            selected_item: 0,
            default_up: KeyCode::Up,
            default_down: KeyCode::Down,
            not_selected_pointer: None,
            move_selected_item_forward: false,
            underline_selected_item: false,
            up_keys: Vec::new(),
            down_keys: Vec::new(),
            lines: Vec::new(),
        };
        assert(s.up_bindings() =~= seq![KeyCode::Up]);
        assert(s.down_bindings() =~= seq![KeyCode::Down]);
        Ok(s)
    }

    /// Restyle every row from the current state: row `i` keeps its text, takes
    /// the current glyphs, and only the selected row is marked.
    fn print_lines(&mut self)
        requires
            old(self).wf(),
            old(self).started(),
        ensures
            final(self).wf(),
            final(self).same_config(old(self)),
            final(self).selection() == old(self).selection(),
            final(self).lines_show_state(old(self).texts()),
    {
        let ghost texts = self.texts();
        let sel = self.selected_item;
        let glyph = match self.not_selected_pointer {
            Some(c) => c,
            None => ' ',
        };
        let n = self.lines.len();
        let mut i: usize = 0;
        while i < n
            invariant
                n == self.lines@.len(),
                n == texts.len(),
                i <= n,
                sel == self.selected_item,
                glyph == self.idle_glyph(),
                self.wf(),
                self.started(),
                self.same_config(old(self)),
                self.selection() == old(self).selection(),
                forall|j: int| i <= j < n ==> (#[trigger] self.lines@[j]).text@ == texts[j],
                forall|j: int|
                    0 <= j < i ==> {
                        let l = #[trigger] self.lines@[j];
                        &&& l.text@ == texts[j]
                        &&& l.pointer == self.pointer
                        &&& l.not_selected_pointer == glyph
                        &&& l.selected == (j == sel)
                        &&& l.underlined == (j == sel && self.underline_selected_item)
                        &&& l.indent == (if j == sel && self.move_selected_item_forward {
                            1u32
                        } else {
                            0u32
                        })
                    },
            decreases n - i,
        {
            let text = self.lines[i].text.clone();
            let mut line = Line::new(text, self.pointer, glyph);
            line.default();
            if i == sel {
                line.select();
                if self.underline_selected_item {
                    line.underline();
                }
                if self.move_selected_item_forward {
                    line.space_from_pointer(1);
                }
            }
            self.lines.set(i, line);
            i += 1;
        }
    }

    /// Begin the session: build a row for each item from `texts`, the items'
    /// texts in order, and style them for the current selection.
    pub fn start(&mut self, texts: Vec<String>)
        requires
            old(self).wf(),
            texts@.len() == old(self).items().len(),
        ensures
            final(self).wf(),
            final(self).started(),
            final(self).same_config(old(self)),
            final(self).selection() == old(self).selection(),
            final(self).lines_show_state(Seq::new(texts@.len(), |i: int| texts@[i]@)),
    {
        let ghost want = Seq::new(texts@.len(), |i: int| texts@[i]@);
        let mut lines: Vec<Line> = Vec::new();
        let n = texts.len();
        let mut i: usize = 0;
        while i < n
            invariant
                want == Seq::new(texts@.len(), |k: int| texts@[k]@),
                n == texts@.len(),
                i <= n,
                lines@.len() == i,
                forall|j: int| 0 <= j < i ==> (#[trigger] lines@[j]).text@ == want[j],
            decreases n - i,
        {
            let text = texts[i].clone();
            lines.push(Line::new(text, self.pointer, ' '));
            i += 1;
        }
        self.lines = lines;
        assert(self.texts() =~= want);
        self.print_lines();
    }

    fn move_up(&mut self)
        requires
            old(self).wf(),
        ensures
            final(self).wf(),
            final(self).same_config(old(self)),
            final(self).lines_spec() == old(self).lines_spec(),
            final(self).selection() == step(
                old(self).selection(),
                old(self).items().len() as int,
                SelectDialogKey::UpKey,
            ),
    {
        if self.selected_item == 0 {
            return;
        }
        self.selected_item -= 1;
    }

    fn move_down(&mut self)
        requires
            old(self).wf(),
        ensures
            final(self).wf(),
            final(self).same_config(old(self)),
            final(self).lines_spec() == old(self).lines_spec(),
            final(self).selection() == step(
                old(self).selection(),
                old(self).items().len() as int,
                SelectDialogKey::DownKey,
            ),
    {
        if self.selected_item == self.items.len() - 1 {
            return;
        }
        self.selected_item += 1;
    }

    /// Take one input event of a started session. Enter (with no modifier)
    /// confirms and changes nothing; a bound up or down key moves the
    /// selection one step, stopping at the ends, and restyles the rows; any
    /// other event is discarded. After `Moved` the caller repaints and tells
    /// its observer; after `Confirmed` it reads no more input.
    pub fn handle_event(&mut self, event: &Event) -> (r: Outcome)
        requires
            old(self).wf(),
            old(self).started(),
        ensures
            r == classify_spec(*event, old(self).up_bindings(), old(self).down_bindings()),
            final(self).selection() == after(
                old(self).selection(),
                old(self).items().len() as int,
                r,
            ),
            0 <= final(self).selection() < final(self).items().len(),
            final(self).wf(),
            final(self).started(),
            final(self).same_config(old(self)),
            final(self).texts() == old(self).texts(),
            r is Moved ==> final(self).lines_show_state(old(self).texts()),
            !(r is Moved) ==> final(self).lines_spec() == old(self).lines_spec(),
    {
        let r = classify(event, &self.up_keys, self.default_up, &self.down_keys, self.default_down);
        match r {
            Outcome::Moved(SelectDialogKey::UpKey) => {
                self.move_up();
                self.print_lines();
            },
            Outcome::Moved(SelectDialogKey::DownKey) => {
                self.move_down();
                self.print_lines();
            },
            _ => {},
        }
        proof {
            if r is Moved {
                assert(self.texts() =~= old(self).texts());
            }
        }
        r
    }

    /// The number of rows the dialog takes on screen: one per item.
    pub fn rows(&self) -> (r: usize)
        ensures
            r == self.items().len(),
    {
        self.items.len()
    }

    /// The rows as last styled.
    pub fn lines(&self) -> (r: &Vec<Line>)
        ensures
            r@ == self.lines_spec(),
    {
        &self.lines
    }

    /// The index of the highlighted item.
    pub fn selected_index(&self) -> (r: usize)
        ensures
            r == self.selection(),
    {
        self.selected_item
    }

    /// The highlighted item; once the session is confirmed, the chosen one.
    pub fn selected(&self) -> (r: &'a I)
        requires
            self.wf(),
        ensures
            *r == self.items()[self.selection()],
    {
        let items: &'a Vec<I> = self.items;
        &items[self.selected_item]
    }

    /// Set the glyph in front of the selected row.
    pub fn pointer(&mut self, pointer: char)
        requires
            old(self).wf(),
        ensures
            final(self).wf(),
            final(self).pointer_spec() == pointer,
            final(self).selection() == old(self).selection(),
            final(self).lines_spec() == old(self).lines_spec(),
            final(self).items() == old(self).items(),
            final(self).not_selected_spec() == old(self).not_selected_spec(),
            final(self).forward_spec() == old(self).forward_spec(),
            final(self).underline_spec() == old(self).underline_spec(),
            final(self).default_up_spec() == old(self).default_up_spec(),
            final(self).default_down_spec() == old(self).default_down_spec(),
            final(self).up_keys_spec() == old(self).up_keys_spec(),
            final(self).down_keys_spec() == old(self).down_keys_spec(),
    {
        self.pointer = pointer;
    }

    /// Set the glyph in front of the rows that are not selected.
    pub fn not_selected_pointer(&mut self, pointer: char)
        requires
            old(self).wf(),
        ensures
            final(self).wf(),
            final(self).not_selected_spec() == Some(pointer),
            final(self).selection() == old(self).selection(),
            final(self).lines_spec() == old(self).lines_spec(),
            final(self).items() == old(self).items(),
            final(self).pointer_spec() == old(self).pointer_spec(),
            final(self).forward_spec() == old(self).forward_spec(),
            final(self).underline_spec() == old(self).underline_spec(),
            final(self).default_up_spec() == old(self).default_up_spec(),
            final(self).default_down_spec() == old(self).default_down_spec(),
            final(self).up_keys_spec() == old(self).up_keys_spec(),
            final(self).down_keys_spec() == old(self).down_keys_spec(),
    {
        self.not_selected_pointer = Some(pointer);
    }

    /// Move the selected row one column forward.
    pub fn move_selected_item_forward(&mut self)
        requires
            old(self).wf(),
        ensures
            final(self).wf(),
            final(self).forward_spec(),
            final(self).selection() == old(self).selection(),
            final(self).lines_spec() == old(self).lines_spec(),
            final(self).items() == old(self).items(),
            final(self).pointer_spec() == old(self).pointer_spec(),
            final(self).not_selected_spec() == old(self).not_selected_spec(),
            final(self).underline_spec() == old(self).underline_spec(),
            final(self).default_up_spec() == old(self).default_up_spec(),
            final(self).default_down_spec() == old(self).default_down_spec(),
            final(self).up_keys_spec() == old(self).up_keys_spec(),
            final(self).down_keys_spec() == old(self).down_keys_spec(),
    {
        self.move_selected_item_forward = true;
    }

    /// Underline the selected row.
    pub fn underline_selected_item(&mut self)
        requires
            old(self).wf(),
        ensures
            final(self).wf(),
            final(self).underline_spec(),
            final(self).selection() == old(self).selection(),
            final(self).lines_spec() == old(self).lines_spec(),
            final(self).items() == old(self).items(),
            final(self).pointer_spec() == old(self).pointer_spec(),
            final(self).not_selected_spec() == old(self).not_selected_spec(),
            final(self).forward_spec() == old(self).forward_spec(),
            final(self).default_up_spec() == old(self).default_up_spec(),
            final(self).default_down_spec() == old(self).default_down_spec(),
            final(self).up_keys_spec() == old(self).up_keys_spec(),
            final(self).down_keys_spec() == old(self).down_keys_spec(),
    {
        self.underline_selected_item = true;
    }

    /// Replace the default up key (the up arrow). Enter is refused and leaves
    /// the dialog as it was.
    pub fn set_up_key(&mut self, key: KeyCode) -> (r: Result<(), ConfigError>)
        requires
            old(self).wf(),
        ensures
            final(self).wf(),
            r is Ok <==> key != KeyCode::Enter,
            r is Err ==> r->Err_0 == ConfigError::ConfirmKeyAsMoveKey,
            r is Err ==> *final(self) == *old(self),
            r is Ok ==> final(self).default_up_spec() == key,
            r is Ok ==> final(self).up_keys_spec() == old(self).up_keys_spec(),
            final(self).selection() == old(self).selection(),
            final(self).lines_spec() == old(self).lines_spec(),
            final(self).items() == old(self).items(),
            final(self).pointer_spec() == old(self).pointer_spec(),
            final(self).not_selected_spec() == old(self).not_selected_spec(),
            final(self).forward_spec() == old(self).forward_spec(),
            final(self).underline_spec() == old(self).underline_spec(),
            final(self).default_down_spec() == old(self).default_down_spec(),
            final(self).down_keys_spec() == old(self).down_keys_spec(),
    {
        if key == KeyCode::Enter {
            return Err(ConfigError::ConfirmKeyAsMoveKey);
        }
        proof {
            lemma_push_keeps_out(self.up_keys@, self.default_up);
            lemma_push_keeps_out(self.up_keys@, key);
        }
        self.default_up = key;
        Ok(())
    }

    /// Replace the default down key (the down arrow). Enter is refused and
    /// leaves the dialog as it was.
    pub fn set_down_key(&mut self, key: KeyCode) -> (r: Result<(), ConfigError>)
        requires
            old(self).wf(),
        ensures
            final(self).wf(),
            r is Ok <==> key != KeyCode::Enter,
            r is Err ==> r->Err_0 == ConfigError::ConfirmKeyAsMoveKey,
            r is Err ==> *final(self) == *old(self),
            r is Ok ==> final(self).default_down_spec() == key,
            r is Ok ==> final(self).down_keys_spec() == old(self).down_keys_spec(),
            final(self).selection() == old(self).selection(),
            final(self).lines_spec() == old(self).lines_spec(),
            final(self).items() == old(self).items(),
            final(self).pointer_spec() == old(self).pointer_spec(),
            final(self).not_selected_spec() == old(self).not_selected_spec(),
            final(self).forward_spec() == old(self).forward_spec(),
            final(self).underline_spec() == old(self).underline_spec(),
            final(self).default_up_spec() == old(self).default_up_spec(),
            final(self).up_keys_spec() == old(self).up_keys_spec(),
    {
        if key == KeyCode::Enter {
            return Err(ConfigError::ConfirmKeyAsMoveKey);
        }
        proof {
            lemma_push_keeps_out(self.down_keys@, self.default_down);
            lemma_push_keeps_out(self.down_keys@, key);
        }
        self.default_down = key;
        Ok(())
    }

    /// Add a key that moves up. Enter is refused, whatever the dialog's
    /// configuration, and leaves the dialog as it was.
    pub fn add_up_key(&mut self, key: KeyCode) -> (r: Result<(), ConfigError>)
        requires
            old(self).wf(),
        ensures
            final(self).wf(),
            r is Ok <==> key != KeyCode::Enter,
            r is Err ==> r->Err_0 == ConfigError::ConfirmKeyAsMoveKey,
            r is Err ==> *final(self) == *old(self),
            r is Ok ==> final(self).up_keys_spec() == old(self).up_keys_spec().push(key),
            final(self).default_up_spec() == old(self).default_up_spec(),
            final(self).selection() == old(self).selection(),
            final(self).lines_spec() == old(self).lines_spec(),
            final(self).items() == old(self).items(),
            final(self).pointer_spec() == old(self).pointer_spec(),
            final(self).not_selected_spec() == old(self).not_selected_spec(),
            final(self).forward_spec() == old(self).forward_spec(),
            final(self).underline_spec() == old(self).underline_spec(),
            final(self).default_down_spec() == old(self).default_down_spec(),
            final(self).down_keys_spec() == old(self).down_keys_spec(),
    {
        if key == KeyCode::Enter {
            return Err(ConfigError::ConfirmKeyAsMoveKey);
        }
        self.up_keys.push(key);
        proof {
            lemma_push_keeps_out(old(self).up_keys@, self.default_up);
            lemma_push_keeps_out(old(self).up_keys@, key);
            lemma_push_keeps_out(self.up_keys@, self.default_up);
        }
        Ok(())
    }

    /// Add a key that moves down. Enter is refused, whatever the dialog's
    /// configuration, and leaves the dialog as it was.
    pub fn add_down_key(&mut self, key: KeyCode) -> (r: Result<(), ConfigError>)
        requires
            old(self).wf(),
        ensures
            final(self).wf(),
            r is Ok <==> key != KeyCode::Enter,
            r is Err ==> r->Err_0 == ConfigError::ConfirmKeyAsMoveKey,
            r is Err ==> *final(self) == *old(self),
            r is Ok ==> final(self).down_keys_spec() == old(self).down_keys_spec().push(key),
            final(self).default_down_spec() == old(self).default_down_spec(),
            final(self).selection() == old(self).selection(),
            final(self).lines_spec() == old(self).lines_spec(),
            final(self).items() == old(self).items(),
            final(self).pointer_spec() == old(self).pointer_spec(),
            final(self).not_selected_spec() == old(self).not_selected_spec(),
            final(self).forward_spec() == old(self).forward_spec(),
            final(self).underline_spec() == old(self).underline_spec(),
            final(self).default_up_spec() == old(self).default_up_spec(),
            final(self).up_keys_spec() == old(self).up_keys_spec(),
    {
        if key == KeyCode::Enter {
            return Err(ConfigError::ConfirmKeyAsMoveKey);
        }
        self.down_keys.push(key);
        proof {
            lemma_push_keeps_out(old(self).down_keys@, self.default_down);
            lemma_push_keeps_out(old(self).down_keys@, key);
            lemma_push_keeps_out(self.down_keys@, self.default_down);
        }
        Ok(())
    }

    /// Feed a started session the events in order until one confirms. Returns
    /// the position of that event, or `None` when no event confirms; the
    /// selection is then where `replay` puts it, and no event after the
    /// confirm is looked at.
    pub fn run_events(&mut self, events: &Vec<Event>) -> (r: Option<usize>)
        requires
            old(self).wf(),
            old(self).started(),
        ensures
            final(self).wf(),
            final(self).started(),
            final(self).same_config(old(self)),
            final(self).texts() == old(self).texts(),
            final(self).selection() == replay(
                old(self).selection(),
                old(self).items().len() as int,
                old(self).up_bindings(),
                old(self).down_bindings(),
                events@,
            ),
            match r {
                Some(i) => {
                    &&& i < events@.len()
                    &&& events@[i as int] == confirm_event()
                    &&& forall|j: int| 0 <= j < i ==> events@[j] != confirm_event()
                },
                None => forall|j: int| 0 <= j < events@.len() ==> events@[j] != confirm_event(),
            },
    {
        let ghost start = self.selection();
        let ghost len = self.items().len() as int;
        let ghost up = self.up_bindings();
        let ghost down = self.down_bindings();
        let mut i: usize = 0;
        while i < events.len()
            invariant
                i <= events@.len(),
                self.wf(),
                self.started(),
                self.same_config(old(self)),
                self.texts() == old(self).texts(),
                start == old(self).selection(),
                len == self.items().len(),
                up == self.up_bindings(),
                down == self.down_bindings(),
                forall|j: int| 0 <= j < i ==> events@[j] != confirm_event(),
                self.selection() == replay(start, len, up, down, events@.subrange(0, i as int)),
            decreases events@.len() - i,
        {
            let o = self.handle_event(&events[i]);
            if o == Outcome::Confirmed {
                proof {
                    assert(events@[i as int] == confirm_event());
                    assert forall|j: int| 0 <= j < i implies events@.subrange(0, i as int)[j]
                        != confirm_event() by {
                        assert(events@.subrange(0, i as int)[j] == events@[j]);
                    }
                    lemma_replay_stops(start, len, up, down, events@.subrange(0, i as int));
                    assert(events@.subrange(0, i as int).push(confirm_event())
                        =~= events@.subrange(0, i + 1));
                    assert(events@.subrange(0, i + 1)[i as int] == confirm_event());
                    lemma_confirm_is_final(
                        start,
                        len,
                        up,
                        down,
                        events@.subrange(0, i + 1),
                        events@.subrange(i + 1, events@.len() as int),
                    );
                    assert(events@.subrange(0, i + 1) + events@.subrange(
                        i + 1,
                        events@.len() as int,
                    ) =~= events@);
                }
                return Some(i);
            }
            proof {
                assert forall|j: int| 0 <= j < i implies events@.subrange(0, i as int)[j]
                    != confirm_event() by {
                    assert(events@.subrange(0, i as int)[j] == events@[j]);
                }
                lemma_replay_extend(start, len, up, down, events@.subrange(0, i as int), events@[i as int]);
                assert(events@.subrange(0, i as int).push(events@[i as int])
                    =~= events@.subrange(0, i + 1));
            }
            i += 1;
        }
        assert(events@.subrange(0, i as int) =~= events@);
        None
    }
}

} // verus!
