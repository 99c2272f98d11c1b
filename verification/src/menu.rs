//! A one-line menu whose highlighted entry moves with the arrow keys.

use vstd::prelude::*;
use crate::terminal::{colours_enabled, highlighted, paint_black_on_white, styled};

verus! {

/// The entries of a menu, in the order they were added.
pub struct Menu<'a> {
    elements: Vec<&'a str>,
}

/// A key as far as the menu tells keys apart.
#[derive(Clone, Copy, Debug, PartialEq, Eq, Structural)]
pub enum MenuKey {
    ArrowLeft,
    ArrowRight,
    Enter,
    Other,
}

/// What the menu does after a key: draw again with this selection, or
/// close with the chosen entry.
#[derive(Clone, Copy, Debug, PartialEq, Eq, Structural)]
pub enum MenuAction {
    Redraw(isize),
    Chosen(usize),
}

impl<'a> View for Menu<'a> {
    type V = Seq<Seq<char>>;

    closed spec fn view(&self) -> Seq<Seq<char>> {
        self.elements@.map_values(|e: &str| e@)
    }
}

/// The selection after an arrow key: left stops at the first entry, right
/// stops at the last one, other keys leave it where it is.
pub open spec fn next_selection(select: int, count: int, key: MenuKey) -> int {
    match key {
        MenuKey::ArrowLeft => if select - 1 > 0 { select - 1 } else { 0 },
        MenuKey::ArrowRight => if select + 1 < count - 1 { select + 1 } else { count - 1 },
        _ => select,
    }
}

/// The menu's answer to a key: Enter closes it with the selection (a
/// negative one counts as the first entry), any other key redraws it.
pub open spec fn menu_action(select: int, count: int, key: MenuKey) -> MenuAction {
    match key {
        MenuKey::Enter => MenuAction::Chosen((if select > 0 { select } else { 0 }) as usize),
        _ => MenuAction::Redraw(next_selection(select, count, key) as isize),
    }
}

/// How an entry is drawn: its name with a space on each side.
pub open spec fn item_text(name: Seq<char>) -> Seq<char> {
    seq![' '] + name + seq![' ']
}

/// The first `n` entries as drawn, each after a space, the selected one
/// replaced by `selected`.
pub open spec fn items_text(entries: Seq<Seq<char>>, select: int, selected: Seq<char>, n: nat) -> Seq<char>
    decreases n,
{
    if n == 0 {
        Seq::empty()
    } else {
        let k = (n - 1) as nat;
        items_text(entries, select, selected, k) + seq![' '] + (if k == select {
            selected
        } else {
            item_text(entries[k as int])
        })
    }
}

/// Resets the attributes, then clears the rest of the terminal line.
pub open spec fn line_end() -> Seq<char> {
    seq!['\x1b', '[', '0', 'm', '\x1b', '[', '0', 'K']
}

/// The whole menu line for a selection whose entry is drawn as `selected`.
pub open spec fn menu_line(entries: Seq<Seq<char>>, select: int, selected: Seq<char>) -> Seq<char> {
    items_text(entries, select, selected, entries.len()) + line_end()
}

/// The menu line with entry `select` in black on white when `colours` is
/// on and drawn like the others when it is off; a selection off the
/// entries highlights nothing.
pub open spec fn styled_menu_line(entries: Seq<Seq<char>>, select: int, colours: bool) -> Seq<char> {
    if 0 <= select < entries.len() {
        menu_line(entries, select, styled(colours, highlighted(item_text(entries[select])), item_text(entries[select])))
    } else {
        menu_line(entries, select, Seq::empty())
    }
}

impl<'a> Menu<'a> {
    /// A menu with no entries.
    pub fn new() -> (m: Self)
        ensures
            m@ == Seq::<Seq<char>>::empty(),
    {
        Menu { elements: Vec::new() }
    }

    /// Adds an entry after the existing ones.
    pub fn add(&mut self, name: &'a str)
        ensures
            final(self)@ == old(self)@.push(name@),
    {
        self.elements.push(name);
        assert(self@ =~= old(self)@.push(name@));
    }

    /// The number of entries.
    pub fn len(&self) -> (n: usize)
        ensures
            n == self@.len(),
    {
        self.elements.len()
    }

    /// The menu's answer to `key` while entry `select` is highlighted.
    pub fn react(&self, select: isize, key: MenuKey) -> (a: MenuAction)
        requires
            self@.len() <= isize::MAX,
            key == MenuKey::ArrowLeft ==> select > isize::MIN,
            key == MenuKey::ArrowRight ==> select < isize::MAX,
        ensures
            a == menu_action(select as int, self@.len() as int, key),
    {
        let count = self.elements.len() as isize;
        match key {
            MenuKey::ArrowLeft => {
                let s = select - 1;
                MenuAction::Redraw(if s > 0 { s } else { 0 })
            },
            MenuKey::ArrowRight => {
                let s = select + 1;
                MenuAction::Redraw(if s < count - 1 { s } else { count - 1 })
            },
            MenuKey::Enter => MenuAction::Chosen(if select > 0 { select as usize } else { 0 }),
            MenuKey::Other => MenuAction::Redraw(select),
        }
    }

    /// The menu line with entry `select` drawn as `selected`.
    pub fn compose_line(&self, select: isize, selected: &str) -> (line: String)
        ensures
            line@ == menu_line(self@, select as int, selected@),
    {
        let mut line = String::new();
        let n = self.elements.len();
        let mut k: usize = 0;
        while k < n
            invariant
                k <= n,
                n == self@.len(),
                line@ == items_text(self@, select as int, selected@, k as nat),
            decreases n - k,
        {
            line.append(" ");
            if k as isize == select && k <= isize::MAX as usize {
                line.append(selected);
            } else {
                line.append(" ");
                line.append(self.elements[k]);
                line.append(" ");
            }
            k = k + 1;
            proof {
                reveal_strlit(" ");
            }
            assert(line@ =~= items_text(self@, select as int, selected@, k as nat));
        }
        line.append("\x1b[0m\x1b[0K");
        proof {
            reveal_strlit("\x1b[0m\x1b[0K");
        }
        assert(line@ =~= menu_line(self@, select as int, selected@));
        line
    }

    /// The menu line with entry `select` highlighted in black on white
    /// when `colours` is on, and drawn like the other entries when it is
    /// off.
    pub fn styled_line(&self, select: isize, colours: bool) -> (line: String)
        ensures
            line@ == styled_menu_line(self@, select as int, colours),
    {
        if 0 <= select && (select as usize) < self.elements.len() {
            let mut plain = String::new();
            plain.append(" ");
            plain.append(self.elements[select as usize]);
            plain.append(" ");
            proof {
                reveal_strlit(" ");
            }
            assert(plain@ =~= item_text(self@[select as int]));
            let painted = paint_black_on_white(plain.as_str(), colours);
            self.compose_line(select, painted.as_str())
        } else {
            proof {
                reveal_strlit("");
                assert(""@ =~= Seq::<char>::empty());
            }
            self.compose_line(select, "")
        }
    }

    /// The menu line with entry `select` highlighted as console draws it on
    /// stdout: painted when console has colours enabled, plain otherwise.
    pub fn line(&self, select: isize) -> (line: String)
        ensures
            exists|colours: bool| line@ == styled_menu_line(self@, select as int, colours),
    {
        let colours = colours_enabled();
        let line = self.styled_line(select, colours);
        assert(line@ == styled_menu_line(self@, select as int, colours));
        line
    }
}

} // verus!

verus! {

/// Where a run of keys leaves the menu: the entry chosen by the first
/// Enter, each earlier key moving the selection; `None` when no Enter
/// comes.
pub open spec fn menu_session(select: int, count: int, keys: Seq<MenuKey>) -> Option<usize>
    decreases keys.len(),
{
    if keys.len() == 0 {
        None
    } else {
        match menu_action(select, count, keys[0]) {
            MenuAction::Chosen(c) => Some(c),
            MenuAction::Redraw(s) => menu_session(s as int, count, keys.drop_first()),
        }
    }
}

/// An arrow key never moves a selection that lies on an entry off the
/// entries: left stops at the first, right at the last.
pub proof fn lemma_selection_stays_on_entries(select: int, count: int, key: MenuKey)
    requires
        0 <= select < count,
    ensures
        0 <= next_selection(select, count, key) < count,
        key == MenuKey::ArrowLeft && select == 0 ==> next_selection(select, count, key) == 0,
        key == MenuKey::ArrowRight && select == count - 1 ==> next_selection(select, count, key) == count - 1,
{
}

/// Right undoes left on every entry but the first.
pub proof fn lemma_right_undoes_left(select: int, count: int)
    requires
        0 < select < count,
    ensures
        next_selection(next_selection(select, count, MenuKey::ArrowLeft), count, MenuKey::ArrowRight) == select,
{
}

/// Left undoes right on every entry but the last.
pub proof fn lemma_left_undoes_right(select: int, count: int)
    requires
        0 <= select < count - 1,
    ensures
        next_selection(next_selection(select, count, MenuKey::ArrowRight), count, MenuKey::ArrowLeft) == select,
{
}

/// A session that starts on an entry ends, if at all, on an entry.
pub proof fn lemma_session_chooses_an_entry(select: int, count: int, keys: Seq<MenuKey>)
    requires
        0 <= select < count,
        count <= isize::MAX,
    ensures
        menu_session(select, count, keys) matches Some(c) ==> c < count,
    decreases keys.len(),
{
    if keys.len() > 0 {
        lemma_selection_stays_on_entries(select, count, keys[0]);
        match menu_action(select, count, keys[0]) {
            MenuAction::Chosen(c) => {},
            MenuAction::Redraw(s) => {
                lemma_session_chooses_an_entry(s as int, count, keys.drop_first());
            },
        }
    }
}

/// The menu line with nothing highlighted.
pub open spec fn plain_line(entries: Seq<Seq<char>>) -> Seq<char> {
    styled_menu_line(entries, -1, false)
}

proof fn lemma_items_same_entries(e1: Seq<Seq<char>>, e2: Seq<Seq<char>>, select: int, selected: Seq<char>, n: nat)
    requires
        n <= e1.len(),
        n <= e2.len(),
        forall|k: int| 0 <= k < n ==> e1[k] == e2[k],
    ensures
        items_text(e1, select, selected, n) == items_text(e2, select, selected, n),
    decreases n,
{
    if n > 0 {
        lemma_items_same_entries(e1, e2, select, selected, (n - 1) as nat);
    }
}

proof fn lemma_items_unselected(entries: Seq<Seq<char>>, select: int, selected: Seq<char>, n: nat)
    requires
        select < 0 || select >= n,
    ensures
        items_text(entries, select, selected, n) == items_text(entries, -1, Seq::empty(), n),
    decreases n,
{
    if n > 0 {
        lemma_items_unselected(entries, select, selected, (n - 1) as nat);
    }
}

proof fn lemma_items_selected_plainly(entries: Seq<Seq<char>>, select: int, n: nat)
    requires
        0 <= select < entries.len(),
    ensures
        items_text(entries, select, item_text(entries[select]), n) == items_text(entries, -1, Seq::empty(), n),
    decreases n,
{
    if n > 0 {
        lemma_items_selected_plainly(entries, select, (n - 1) as nat);
    }
}

proof fn lemma_items_highlight_at(entries: Seq<Seq<char>>, select: int, selected: Seq<char>, n: nat)
    requires
        0 <= select < n,
    ensures ({
        let plain = items_text(entries, -1, Seq::empty(), n);
        let at: int = items_text(entries, -1, Seq::empty(), select as nat).len() as int + 1;
        let width: int = item_text(entries[select]).len() as int;
        &&& at + width <= plain.len()
        &&& plain.subrange(at, at + width) == item_text(entries[select])
        &&& items_text(entries, select, selected, n) == plain.take(at) + selected + plain.skip(at + width)
    }),
    decreases n,
{
    let plain = items_text(entries, -1, Seq::empty(), n);
    let before = items_text(entries, -1, Seq::empty(), select as nat);
    let at: int = before.len() as int + 1;
    let item = item_text(entries[select]);
    let width: int = item.len() as int;
    if n == select + 1 {
        lemma_items_unselected(entries, select, selected, select as nat);
        assert(plain =~= before + seq![' '] + item);
        assert(plain.subrange(at, at + width) =~= item);
        assert(items_text(entries, select, selected, n) =~= plain.take(at) + selected + plain.skip(at + width));
    } else {
        let m = (n - 1) as nat;
        lemma_items_highlight_at(entries, select, selected, m);
        let shorter = items_text(entries, -1, Seq::empty(), m);
        let tail = seq![' '] + item_text(entries[m as int]);
        assert(plain =~= shorter + tail);
        assert(plain.subrange(at, at + width) =~= shorter.subrange(at, at + width));
        assert(plain.take(at) =~= shorter.take(at));
        assert(plain.skip(at + width) =~= shorter.skip(at + width) + tail);
        assert(items_text(entries, select, selected, n) =~= plain.take(at) + selected + plain.skip(at + width));
    }
}

/// A menu without entries draws only the line end.
pub proof fn lemma_empty_menu_line()
    ensures
        plain_line(Seq::empty()) == line_end(),
{
    assert(items_text(Seq::empty(), -1, Seq::empty(), 0) =~= Seq::<char>::empty());
    assert(plain_line(Seq::empty()) =~= line_end());
}

/// Adding an entry draws it, after a space, at the end of the entries
/// already drawn, before the line end.
pub proof fn lemma_added_entry_drawn_last(entries: Seq<Seq<char>>, name: Seq<char>)
    ensures
        plain_line(entries.push(name)) == plain_line(entries).take(plain_line(entries).len() - line_end().len())
            + seq![' '] + item_text(name) + line_end(),
{
    let n = entries.len();
    lemma_items_same_entries(entries.push(name), entries, -1, Seq::empty(), n);
    assert(entries.push(name)[n as int] == name);
    assert(plain_line(entries).take(plain_line(entries).len() - line_end().len())
        =~= items_text(entries, -1, Seq::empty(), n));
    assert(plain_line(entries.push(name)) =~= plain_line(entries).take(plain_line(entries).len() - line_end().len())
        + seq![' '] + item_text(name) + line_end());
}

/// The highlight sits on the selected entry and on it only: without
/// colours the line is the plain one, whichever entry is selected; with
/// colours it is the plain line with the selected entry, found after the
/// entries before it, replaced by that entry highlighted.
pub proof fn lemma_highlight_on_the_selection(entries: Seq<Seq<char>>, select: int)
    requires
        0 <= select < entries.len(),
    ensures ({
        let plain = plain_line(entries);
        let at: int = plain_line(entries.take(select)).len() - line_end().len() + 1;
        let item = item_text(entries[select]);
        &&& styled_menu_line(entries, select, false) == plain
        &&& plain.subrange(at, at + item.len()) == item
        &&& styled_menu_line(entries, select, true)
            == plain.take(at) + highlighted(item) + plain.skip(at + item.len())
    }),
{
    let n = entries.len();
    let item = item_text(entries[select]);
    let prefix = entries.take(select);
    lemma_items_same_entries(prefix, entries, -1, Seq::empty(), select as nat);
    let items = items_text(entries, -1, Seq::empty(), n);
    let plain = plain_line(entries);
    let at: int = plain_line(prefix).len() - line_end().len() + 1;
    assert(at == items_text(entries, -1, Seq::empty(), select as nat).len() + 1);
    lemma_items_selected_plainly(entries, select, n);
    lemma_items_highlight_at(entries, select, highlighted(item), n);
    assert(plain =~= items + line_end());
    assert(plain.subrange(at, at + item.len()) =~= items.subrange(at, at + item.len()));
    assert(plain.take(at) =~= items.take(at));
    assert(plain.skip(at + item.len()) =~= items.skip(at + item.len()) + line_end());
    assert(styled_menu_line(entries, select, true) =~= plain.take(at) + highlighted(item) + plain.skip(at + item.len()));
}

} // verus!
