//! Actions, key codes and the key map: parsing of action and key names,
//! building the map from the defaults and the configuration, lookup with the
//! Shift fallbacks, and the key labels of the menu bar.
use vstd::prelude::*;
use crate::num::{dec, push_dec};
use crate::text::{ascii_lower, chars_eq_str, chars_of, is_ascii_upper, is_ascii_uppercase, slice_chars, starts_with_str, string_of, to_ascii_lower};

verus! {

/// What a key press asks for.
#[derive(Clone, Copy, PartialEq, Eq, Hash, Debug, Structural)]
pub enum Action {
    MoveUp,
    MoveDown,
    MoveLeft,
    MoveRight,
    FirstEntry,
    LastEntry,
    PageUp,
    PageDown,
    Enter,
    ParentDir,
    HomeDir,
    TagMove,
    TagAll,
    Quit,
    ColMode1,
    ColMode2,
    ColMode3,
    ColMode5,
    Mkdir,
    DirJump,
    TreeToggle,
    Edit,
    Run,
    Func,
    Git,
    Copy,
    Move,
    Delete,
    Rename,
    Attr,
    Search,
    SearchNext,
    SearchPrev,
    /// Open the sort dialog.
    Sort,
}

/// The action named `s` in the `[keys]` table (`macro` is an old name of
/// `func`).
pub open spec fn action_of(s: Seq<char>) -> Option<Action> {
    if s == "move_up"@ {
        Some(Action::MoveUp)
    } else if s == "move_down"@ {
        Some(Action::MoveDown)
    } else if s == "move_left"@ {
        Some(Action::MoveLeft)
    } else if s == "move_right"@ {
        Some(Action::MoveRight)
    } else if s == "first_entry"@ {
        Some(Action::FirstEntry)
    } else if s == "last_entry"@ {
        Some(Action::LastEntry)
    } else if s == "page_up"@ {
        Some(Action::PageUp)
    } else if s == "page_down"@ {
        Some(Action::PageDown)
    } else if s == "enter"@ {
        Some(Action::Enter)
    } else if s == "parent_dir"@ {
        Some(Action::ParentDir)
    } else if s == "home_dir"@ {
        Some(Action::HomeDir)
    } else if s == "tag_move"@ {
        Some(Action::TagMove)
    } else if s == "tag_all"@ {
        Some(Action::TagAll)
    } else if s == "quit"@ {
        Some(Action::Quit)
    } else if s == "col_mode_1"@ {
        Some(Action::ColMode1)
    } else if s == "col_mode_2"@ {
        Some(Action::ColMode2)
    } else if s == "col_mode_3"@ {
        Some(Action::ColMode3)
    } else if s == "col_mode_5"@ {
        Some(Action::ColMode5)
    } else if s == "mkdir"@ {
        Some(Action::Mkdir)
    } else if s == "dir_jump"@ {
        Some(Action::DirJump)
    } else if s == "tree_toggle"@ {
        Some(Action::TreeToggle)
    } else if s == "edit"@ {
        Some(Action::Edit)
    } else if s == "run"@ {
        Some(Action::Run)
    } else if s == "func"@ || s == "macro"@ {
        Some(Action::Func)
    } else if s == "git"@ {
        Some(Action::Git)
    } else if s == "copy"@ {
        Some(Action::Copy)
    } else if s == "move"@ {
        Some(Action::Move)
    } else if s == "delete"@ {
        Some(Action::Delete)
    } else if s == "rename"@ {
        Some(Action::Rename)
    } else if s == "attr"@ {
        Some(Action::Attr)
    } else if s == "search"@ {
        Some(Action::Search)
    } else if s == "search_next"@ {
        Some(Action::SearchNext)
    } else if s == "search_prev"@ {
        Some(Action::SearchPrev)
    } else if s == "sort"@ {
        Some(Action::Sort)
    } else {
        None
    }
}

/// The action named `s`, if any.
pub fn action_from_str(s: &str) -> (r: Option<Action>)
    ensures
        r == action_of(s@),
{
    let c = chars_of(s);
    if chars_eq_str(&c, "move_up") {
        Some(Action::MoveUp)
    } else if chars_eq_str(&c, "move_down") {
        Some(Action::MoveDown)
    } else if chars_eq_str(&c, "move_left") {
        Some(Action::MoveLeft)
    } else if chars_eq_str(&c, "move_right") {
        Some(Action::MoveRight)
    } else if chars_eq_str(&c, "first_entry") {
        Some(Action::FirstEntry)
    } else if chars_eq_str(&c, "last_entry") {
        Some(Action::LastEntry)
    } else if chars_eq_str(&c, "page_up") {
        Some(Action::PageUp)
    } else if chars_eq_str(&c, "page_down") {
        Some(Action::PageDown)
    } else if chars_eq_str(&c, "enter") {
        Some(Action::Enter)
    } else if chars_eq_str(&c, "parent_dir") {
        Some(Action::ParentDir)
    } else if chars_eq_str(&c, "home_dir") {
        Some(Action::HomeDir)
    } else if chars_eq_str(&c, "tag_move") {
        Some(Action::TagMove)
    } else if chars_eq_str(&c, "tag_all") {
        Some(Action::TagAll)
    } else if chars_eq_str(&c, "quit") {
        Some(Action::Quit)
    } else if chars_eq_str(&c, "col_mode_1") {
        Some(Action::ColMode1)
    } else if chars_eq_str(&c, "col_mode_2") {
        Some(Action::ColMode2)
    } else if chars_eq_str(&c, "col_mode_3") {
        Some(Action::ColMode3)
    } else if chars_eq_str(&c, "col_mode_5") {
        Some(Action::ColMode5)
    } else if chars_eq_str(&c, "mkdir") {
        Some(Action::Mkdir)
    } else if chars_eq_str(&c, "dir_jump") {
        Some(Action::DirJump)
    } else if chars_eq_str(&c, "tree_toggle") {
        Some(Action::TreeToggle)
    } else if chars_eq_str(&c, "edit") {
        Some(Action::Edit)
    } else if chars_eq_str(&c, "run") {
        Some(Action::Run)
    } else if chars_eq_str(&c, "func") || chars_eq_str(&c, "macro") {
        Some(Action::Func)
    } else if chars_eq_str(&c, "git") {
        Some(Action::Git)
    } else if chars_eq_str(&c, "copy") {
        Some(Action::Copy)
    } else if chars_eq_str(&c, "move") {
        Some(Action::Move)
    } else if chars_eq_str(&c, "delete") {
        Some(Action::Delete)
    } else if chars_eq_str(&c, "rename") {
        Some(Action::Rename)
    } else if chars_eq_str(&c, "attr") {
        Some(Action::Attr)
    } else if chars_eq_str(&c, "search") {
        Some(Action::Search)
    } else if chars_eq_str(&c, "search_next") {
        Some(Action::SearchNext)
    } else if chars_eq_str(&c, "search_prev") {
        Some(Action::SearchPrev)
    } else if chars_eq_str(&c, "sort") {
        Some(Action::Sort)
    } else {
        None
    }
}

// ── Keys ─────────────────────────────────────────────────────────────────

/// A key of the keyboard, as the terminal reports it.
#[derive(Clone, Copy, PartialEq, Eq, Hash, Debug, Structural)]
pub enum KeyCode {
    Backspace,
    Enter,
    Left,
    Right,
    Up,
    Down,
    Home,
    End,
    PageUp,
    PageDown,
    Tab,
    Delete,
    Insert,
    F(u8),
    Char(char),
    Esc,
    /// Any other key (back-tab, lock keys, media keys, ...).
    Other,
}

/// Modifier keys held with a key, as terminal modifier bits
/// (Shift 1, Control 2, Alt 4, Super 8, Hyper 16, Meta 32).
#[derive(Clone, Copy, PartialEq, Eq, Hash, Debug, Structural)]
pub struct KeyModifiers {
    pub bits: u8,
}

impl KeyModifiers {
    /// No modifier.
    pub fn none() -> (r: KeyModifiers)
        ensures
            r.bits == 0,
    {
        KeyModifiers { bits: 0 }
    }

    /// Shift.
    pub fn shift() -> (r: KeyModifiers)
        ensures
            r.bits == 1,
    {
        KeyModifiers { bits: 1 }
    }

    /// Control.
    pub fn control() -> (r: KeyModifiers)
        ensures
            r.bits == 2,
    {
        KeyModifiers { bits: 2 }
    }

    /// Alt.
    pub fn alt() -> (r: KeyModifiers)
        ensures
            r.bits == 4,
    {
        KeyModifiers { bits: 4 }
    }
}

/// A key with its modifiers.
pub type Key = (KeyCode, KeyModifiers);

/// The key code named `s`: special names, or any single character.
pub open spec fn key_code_of(s: Seq<char>) -> Option<KeyCode> {
    if s == "Enter"@ {
        Some(KeyCode::Enter)
    } else if s == "Backspace"@ {
        Some(KeyCode::Backspace)
    } else if s == "Tab"@ {
        Some(KeyCode::Tab)
    } else if s == "Esc"@ {
        Some(KeyCode::Esc)
    } else if s == "Space"@ {
        Some(KeyCode::Char(' '))
    } else if s == "Up"@ {
        Some(KeyCode::Up)
    } else if s == "Down"@ {
        Some(KeyCode::Down)
    } else if s == "Left"@ {
        Some(KeyCode::Left)
    } else if s == "Right"@ {
        Some(KeyCode::Right)
    } else if s == "PageUp"@ {
        Some(KeyCode::PageUp)
    } else if s == "PageDown"@ {
        Some(KeyCode::PageDown)
    } else if s == "Home"@ {
        Some(KeyCode::Home)
    } else if s == "End"@ {
        Some(KeyCode::End)
    } else if s == "Delete"@ {
        Some(KeyCode::Delete)
    } else if s == "Insert"@ {
        Some(KeyCode::Insert)
    } else if s == "F1"@ {
        Some(KeyCode::F(1))
    } else if s == "F2"@ {
        Some(KeyCode::F(2))
    } else if s == "F3"@ {
        Some(KeyCode::F(3))
    } else if s == "F4"@ {
        Some(KeyCode::F(4))
    } else if s == "F5"@ {
        Some(KeyCode::F(5))
    } else if s == "F6"@ {
        Some(KeyCode::F(6))
    } else if s == "F7"@ {
        Some(KeyCode::F(7))
    } else if s == "F8"@ {
        Some(KeyCode::F(8))
    } else if s == "F9"@ {
        Some(KeyCode::F(9))
    } else if s == "F10"@ {
        Some(KeyCode::F(10))
    } else if s == "F11"@ {
        Some(KeyCode::F(11))
    } else if s == "F12"@ {
        Some(KeyCode::F(12))
    } else if s.len() == 1 {
        Some(KeyCode::Char(s[0]))
    } else {
        None
    }
}

/// The key named `s` in the `[keys]` table: an optional `Ctrl+`, `Shift+`
/// or `Alt+` prefix (the first that matches), then a key code name.
pub open spec fn key_of(s: Seq<char>) -> Option<Key> {
    let (m, rest) = if crate::text::has_prefix(s, "Ctrl+"@) {
        (2u8, s.skip(5))
    } else if crate::text::has_prefix(s, "Shift+"@) {
        (1u8, s.skip(6))
    } else if crate::text::has_prefix(s, "Alt+"@) {
        (4u8, s.skip(4))
    } else {
        (0u8, s)
    };
    match key_code_of(rest) {
        Some(c) => Some((c, KeyModifiers { bits: m })),
        None => None,
    }
}

fn key_code_from(c: &Vec<char>) -> (r: Option<KeyCode>)
    ensures
        r == key_code_of(c@),
{
    if chars_eq_str(c, "Enter") {
        Some(KeyCode::Enter)
    } else if chars_eq_str(c, "Backspace") {
        Some(KeyCode::Backspace)
    } else if chars_eq_str(c, "Tab") {
        Some(KeyCode::Tab)
    } else if chars_eq_str(c, "Esc") {
        Some(KeyCode::Esc)
    } else if chars_eq_str(c, "Space") {
        Some(KeyCode::Char(' '))
    } else if chars_eq_str(c, "Up") {
        Some(KeyCode::Up)
    } else if chars_eq_str(c, "Down") {
        Some(KeyCode::Down)
    } else if chars_eq_str(c, "Left") {
        Some(KeyCode::Left)
    } else if chars_eq_str(c, "Right") {
        Some(KeyCode::Right)
    } else if chars_eq_str(c, "PageUp") {
        Some(KeyCode::PageUp)
    } else if chars_eq_str(c, "PageDown") {
        Some(KeyCode::PageDown)
    } else if chars_eq_str(c, "Home") {
        Some(KeyCode::Home)
    } else if chars_eq_str(c, "End") {
        Some(KeyCode::End)
    } else if chars_eq_str(c, "Delete") {
        Some(KeyCode::Delete)
    } else if chars_eq_str(c, "Insert") {
        Some(KeyCode::Insert)
    } else if chars_eq_str(c, "F1") {
        Some(KeyCode::F(1))
    } else if chars_eq_str(c, "F2") {
        Some(KeyCode::F(2))
    } else if chars_eq_str(c, "F3") {
        Some(KeyCode::F(3))
    } else if chars_eq_str(c, "F4") {
        Some(KeyCode::F(4))
    } else if chars_eq_str(c, "F5") {
        Some(KeyCode::F(5))
    } else if chars_eq_str(c, "F6") {
        Some(KeyCode::F(6))
    } else if chars_eq_str(c, "F7") {
        Some(KeyCode::F(7))
    } else if chars_eq_str(c, "F8") {
        Some(KeyCode::F(8))
    } else if chars_eq_str(c, "F9") {
        Some(KeyCode::F(9))
    } else if chars_eq_str(c, "F10") {
        Some(KeyCode::F(10))
    } else if chars_eq_str(c, "F11") {
        Some(KeyCode::F(11))
    } else if chars_eq_str(c, "F12") {
        Some(KeyCode::F(12))
    } else if c.len() == 1 {
        Some(KeyCode::Char(c[0]))
    } else {
        None
    }
}

/// Parses a key name such as `a`, `Enter`, `F5` or `Ctrl+a`.
pub fn parse_key_str(s: &str) -> (r: Option<Key>)
    ensures
        r == key_of(s@),
{
    let c = chars_of(s);
    proof {
        reveal_strlit("Ctrl+");
        reveal_strlit("Shift+");
        reveal_strlit("Alt+");
    }
    let (m, rest): (u8, Vec<char>) = if starts_with_str(&c, "Ctrl+") {
        (2, slice_chars(&c, 5, c.len()))
    } else if starts_with_str(&c, "Shift+") {
        (1, slice_chars(&c, 6, c.len()))
    } else if starts_with_str(&c, "Alt+") {
        (4, slice_chars(&c, 4, c.len()))
    } else {
        (0, crate::text::copy_chars(&c))
    };
    match key_code_from(&rest) {
        Some(code) => Some((code, KeyModifiers { bits: m })),
        None => None,
    }
}

/// Whether `c` is one of the four arrow keys.
pub open spec fn is_arrow(c: KeyCode) -> bool {
    c is Up || c is Down || c is Left || c is Right
}

// ── The key map ──────────────────────────────────────────────────────────

/// The map of a list of (key, action) bindings: later bindings win.
pub open spec fn bindings_map(v: Seq<(KeyCode, KeyModifiers, Action)>) -> Map<Key, Action>
    decreases v.len(),
{
    if v.len() == 0 {
        Map::empty()
    } else {
        bindings_map(v.drop_last()).insert((v.last().0, v.last().1), v.last().2)
    }
}

/// No key is bound twice in `v`.
pub open spec fn unique_keys(v: Seq<(KeyCode, KeyModifiers, Action)>) -> bool {
    forall|i: int, j: int|
        0 <= i < j < v.len() ==> (v[i].0, v[i].1) != (v[j].0, v[j].1)
}

/// `m` without the keys bound to `a` (`retain(|_, v| *v != a)`).
pub open spec fn without_action(m: Map<Key, Action>, a: Action) -> Map<Key, Action> {
    Map::new(|k: Key| m.dom().contains(k) && m[k] != a, |k: Key| m[k])
}

proof fn lemma_bindings_update(v: Seq<(KeyCode, KeyModifiers, Action)>, i: int, a: Action)
    requires
        unique_keys(v),
        0 <= i < v.len(),
    ensures
        bindings_map(v.update(i, (v[i].0, v[i].1, a))) == bindings_map(v).insert(
            (v[i].0, v[i].1),
            a,
        ),
        unique_keys(v.update(i, (v[i].0, v[i].1, a))),
    decreases v.len(),
{
    let e = (v[i].0, v[i].1, a);
    let w = v.update(i, e);
    if i == v.len() - 1 {
        assert(w.drop_last() =~= v.drop_last());
        assert(bindings_map(w) =~= bindings_map(v).insert((v[i].0, v[i].1), a));
    } else {
        assert(w.drop_last() =~= v.drop_last().update(i, e));
        assert(unique_keys(v.drop_last()));
        lemma_bindings_update(v.drop_last(), i, a);
        assert((v.last().0, v.last().1) != (v[i].0, v[i].1));
        assert(bindings_map(w) =~= bindings_map(v).insert((v[i].0, v[i].1), a));
    }
}

proof fn lemma_bindings_absent(v: Seq<(KeyCode, KeyModifiers, Action)>, k: Key)
    requires
        forall|i: int| 0 <= i < v.len() ==> ((#[trigger] v[i]).0, v[i].1) != k,
    ensures
        !bindings_map(v).dom().contains(k),
    decreases v.len(),
{
    if v.len() > 0 {
        lemma_bindings_absent(v.drop_last(), k);
    }
}

proof fn lemma_bindings_at(v: Seq<(KeyCode, KeyModifiers, Action)>, i: int)
    requires
        unique_keys(v),
        0 <= i < v.len(),
    ensures
        bindings_map(v).dom().contains((v[i].0, v[i].1)),
        bindings_map(v)[(v[i].0, v[i].1)] == v[i].2,
    decreases v.len(),
{
    if i < v.len() - 1 {
        lemma_bindings_at(v.drop_last(), i);
    }
}

proof fn lemma_bindings_dom(v: Seq<(KeyCode, KeyModifiers, Action)>, k: Key)
    requires
        unique_keys(v),
        bindings_map(v).dom().contains(k),
    ensures
        exists|i: int| 0 <= i < v.len() && (#[trigger] v[i]).0 == k.0 && v[i].1 == k.1,
    decreases v.len(),
{
    if v.len() > 0 && (v.last().0, v.last().1) != k {
        lemma_bindings_dom(v.drop_last(), k);
        let i = choose|i: int| 0 <= i < v.drop_last().len() && (#[trigger] v.drop_last()[i]).0 == k.0 && v.drop_last()[i].1 == k.1;
        assert(v[i] == v.drop_last()[i]);
    } else if v.len() > 0 {
        assert(v[v.len() - 1] == v.last());
    }
}

/// Key bindings; no key is bound twice (a type invariant).
pub struct KeyMap {
    bindings: Vec<(KeyCode, KeyModifiers, Action)>,
}

impl KeyMap {
    /// No key is bound twice.
    #[verifier::type_invariant]
    spec fn keys_unique(&self) -> bool {
        unique_keys(self.bindings@)
    }

    /// The key-to-action map.
    pub closed spec fn view_map(&self) -> Map<Key, Action> {
        bindings_map(self.bindings@)
    }

    /// An empty key map.
    pub fn new() -> (r: KeyMap)
        ensures
            r.view_map() == Map::<Key, Action>::empty(),
    {
        KeyMap { bindings: Vec::new() }
    }

    /// Binds `key` to `action` (`HashMap::insert`).
    pub fn insert(&mut self, key: Key, action: Action)
        ensures
            final(self).view_map() == old(self).view_map().insert(key, action),
    {
        proof {
            use_type_invariant(&*self);
        }
        let ghost old_v = self.bindings@;
        let mut v: Vec<(KeyCode, KeyModifiers, Action)> = Vec::new();
        std::mem::swap(&mut v, &mut self.bindings);
        let mut i: usize = 0;
        while i < v.len()
            invariant
                i <= v.len(),
                v@ == old_v,
                old_v == old(self).bindings@,
                unique_keys(old_v),
                forall|k: int| 0 <= k < i ==> ((#[trigger] old_v[k]).0, old_v[k].1) != key,
            decreases v.len() - i,
        {
            let (c, m, _) = v[i];
            if c == key.0 && m == key.1 {
                proof {
                    lemma_bindings_update(old_v, i as int, action);
                }
                v.set(i, (c, m, action));
                self.bindings = v;
                return;
            }
            i += 1;
        }
        proof {
            let w = old_v.push((key.0, key.1, action));
            assert(w.drop_last() =~= old_v);
            assert forall|a: int, b: int| 0 <= a < b < w.len() implies (w[a].0, w[a].1) != (w[b].0, w[b].1) by {
                assert(w[a] == old_v[a]);
                if b < old_v.len() {
                    assert(w[b] == old_v[b]);
                }
            }
        }
        v.push((key.0, key.1, action));
        assert(v@.drop_last() =~= old_v);
        self.bindings = v;
    }

    /// Removes every binding of `action` (`retain(|_, v| *v != action)`).
    pub fn remove_action(&mut self, action: Action)
        ensures
            final(self).view_map() == without_action(old(self).view_map(), action),
    {
        proof {
            use_type_invariant(&*self);
        }
        let ghost old_v = self.bindings@;
        let mut kept: Vec<(KeyCode, KeyModifiers, Action)> = Vec::new();
        let mut i: usize = 0;
        while i < self.bindings.len()
            invariant
                i <= self.bindings.len(),
                self.bindings@ == old_v,
                unique_keys(old_v),
                unique_keys(kept@),
                bindings_map(kept@) == without_action(bindings_map(old_v.take(i as int)), action),
                forall|k: int| 0 <= k < kept@.len() ==> exists|j: int| 0 <= j < i && (#[trigger] kept@[k]) == old_v[j],
            decreases self.bindings.len() - i,
        {
            let b = self.bindings[i];
            let ghost before = kept@;
            assert(old_v.take(i + 1).drop_last() =~= old_v.take(i as int));
            assert(old_v.take(i + 1).last() == b);
            proof {
                // the key of `b` is not bound earlier
                assert forall|k: int| 0 <= k < i implies (#[trigger] old_v[k].0, old_v[k].1) != (b.0, b.1) by {}
            }
            if b.2 != action {
                kept.push(b);
                assert(kept@.drop_last() =~= before);
                assert(unique_keys(kept@)) by {
                    assert forall|a: int, c: int| 0 <= a < c < kept@.len() implies (kept@[a].0, kept@[a].1)
                        != (kept@[c].0, kept@[c].1) by {
                        if c == before.len() {
                            assert(kept@[a] == before[a]);
                            let j = choose|j: int| 0 <= j < i && before[a] == old_v[j];
                            assert(old_v[j] == before[a]);
                        } else {
                            assert(kept@[a] == before[a]);
                            assert(kept@[c] == before[c]);
                        }
                    }
                }
                assert forall|k: int| 0 <= k < kept@.len() implies exists|j: int| 0 <= j < i + 1 && (#[trigger] kept@[k]) == old_v[j] by {
                    if k < before.len() {
                        assert(kept@[k] == before[k]);
                        let j = choose|j: int| 0 <= j < i && before[k] == old_v[j];
                        assert(old_v[j] == kept@[k]);
                    } else {
                        assert(kept@[k] == old_v[i as int]);
                    }
                }
                assert(bindings_map(kept@) =~= without_action(bindings_map(old_v.take(i + 1)), action));
            } else {
                assert(bindings_map(kept@) =~= without_action(bindings_map(old_v.take(i + 1)), action)) by {
                    lemma_bindings_absent(old_v.take(i as int), (b.0, b.1));
                }
            }
            i += 1;
        }
        assert(old_v.take(old_v.len() as int) =~= old_v);
        self.bindings = kept;
    }

    /// The action bound to `key`, if any (`HashMap::get`).
    pub fn get(&self, key: Key) -> (r: Option<Action>)
        ensures
            self.view_map().dom().contains(key) ==> r == Some(self.view_map()[key]),
            !self.view_map().dom().contains(key) ==> r is None,
    {
        proof {
            use_type_invariant(self);
        }
        let mut i: usize = 0;
        while i < self.bindings.len()
            invariant
                i <= self.bindings.len(),
                unique_keys(self.bindings@),
                forall|k: int| 0 <= k < i ==> ((#[trigger] self.bindings@[k]).0, self.bindings@[k].1) != key,
            decreases self.bindings.len() - i,
        {
            let (c, m, a) = self.bindings[i];
            if c == key.0 && m == key.1 {
                proof {
                    lemma_bindings_at(self.bindings@, i as int);
                }
                return Some(a);
            }
            i += 1;
        }
        proof {
            lemma_bindings_absent(self.bindings@, key);
        }
        None
    }
}


// ── Lookup ───────────────────────────────────────────────────────────────

/// The action for a key press: the exact binding, or for a Shift-modified
/// character the unmodified binding, then (for an ASCII capital) the
/// Shift binding of the lowercase letter.
pub open spec fn lookup_of(m: Map<Key, Action>, code: KeyCode, mods: KeyModifiers) -> Option<Action> {
    if m.dom().contains((code, mods)) {
        Some(m[(code, mods)])
    } else if mods.bits == 1 && code is Char {
        let c = code->Char_0;
        if m.dom().contains((KeyCode::Char(c), KeyModifiers { bits: 0 })) {
            Some(m[(KeyCode::Char(c), KeyModifiers { bits: 0 })])
        } else if is_ascii_upper(c) && m.dom().contains((KeyCode::Char(ascii_lower(c)), KeyModifiers { bits: 1 })) {
            Some(m[(KeyCode::Char(ascii_lower(c)), KeyModifiers { bits: 1 })])
        } else {
            None
        }
    } else {
        None
    }
}

/// The action bound to a key press, with the Shift fallbacks.
pub fn lookup_action(keymap: &KeyMap, code: KeyCode, modifiers: KeyModifiers) -> (r: Option<Action>)
    ensures
        r == lookup_of(keymap.view_map(), code, modifiers),
{
    if let Some(a) = keymap.get((code, modifiers)) {
        return Some(a);
    }
    if modifiers.bits == 1 {
        if let KeyCode::Char(c) = code {
            if let Some(a) = keymap.get((KeyCode::Char(c), KeyModifiers { bits: 0 })) {
                return Some(a);
            }
            if is_ascii_uppercase(c) {
                if let Some(a) = keymap.get((KeyCode::Char(to_ascii_lower(c)), KeyModifiers { bits: 1 })) {
                    return Some(a);
                }
            }
        }
    }
    None
}

// ── Building the map ─────────────────────────────────────────────────────

/// The built-in bindings.
pub open spec fn default_keymap() -> Map<Key, Action> {
    let n = KeyModifiers { bits: 0 };
    Map::<Key, Action>::empty()
        .insert((KeyCode::Char('k'), n), Action::MoveUp)
        .insert((KeyCode::Char('j'), n), Action::MoveDown)
        .insert((KeyCode::Char('h'), n), Action::MoveLeft)
        .insert((KeyCode::Char('l'), n), Action::MoveRight)
        .insert((KeyCode::Char('g'), n), Action::FirstEntry)
        .insert((KeyCode::Char('G'), n), Action::LastEntry)
        .insert((KeyCode::PageUp, n), Action::PageUp)
        .insert((KeyCode::PageDown, n), Action::PageDown)
        .insert((KeyCode::Enter, n), Action::Enter)
        .insert((KeyCode::Backspace, n), Action::ParentDir)
        .insert((KeyCode::Char('~'), n), Action::HomeDir)
        .insert((KeyCode::Char(' '), n), Action::TagMove)
        .insert((KeyCode::Home, n), Action::TagAll)
        .insert((KeyCode::Char('q'), n), Action::Quit)
        .insert((KeyCode::Char('!'), n), Action::ColMode1)
        .insert((KeyCode::Char('@'), n), Action::ColMode2)
        .insert((KeyCode::Char('#'), n), Action::ColMode3)
        .insert((KeyCode::Char('%'), n), Action::ColMode5)
        .insert((KeyCode::Char('K'), n), Action::Mkdir)
        .insert((KeyCode::Char('J'), n), Action::DirJump)
        .insert((KeyCode::Tab, n), Action::TreeToggle)
        .insert((KeyCode::Char('e'), n), Action::Edit)
        .insert((KeyCode::Char('x'), n), Action::Run)
        .insert((KeyCode::Char(':'), n), Action::Func)
        .insert((KeyCode::Char('b'), n), Action::Git)
        .insert((KeyCode::Char('c'), n), Action::Copy)
        .insert((KeyCode::Char('m'), n), Action::Move)
        .insert((KeyCode::Char('d'), n), Action::Delete)
        .insert((KeyCode::Char('a'), n), Action::Attr)
        .insert((KeyCode::Char('/'), n), Action::Search)
        .insert((KeyCode::Char('n'), n), Action::SearchNext)
        .insert((KeyCode::Char('N'), n), Action::SearchPrev)
        .insert((KeyCode::Char('s'), n), Action::Sort)
}

/// The `[keys]` entries as (action name, key name) pairs.
pub open spec fn entry_views(cfg: Seq<(String, String)>) -> Seq<(Seq<char>, Seq<char>)> {
    cfg.map_values(|e: (String, String)| (e.0@, e.1@))
}

/// `m` after the `[keys]` entries, in order: an entry whose action and key
/// both parse unbinds every key of that action and binds the key to it.
pub open spec fn configured(m: Map<Key, Action>, cfg: Seq<(Seq<char>, Seq<char>)>) -> Map<Key, Action>
    decreases cfg.len(),
{
    if cfg.len() == 0 {
        m
    } else {
        let prev = configured(m, cfg.drop_last());
        match (action_of(cfg.last().0), key_of(cfg.last().1)) {
            (Some(a), Some(k)) => without_action(prev, a).insert(k, a),
            _ => prev,
        }
    }
}

/// `m` with the four unmodified arrow keys bound to the four moves.
pub open spec fn with_arrows(m: Map<Key, Action>) -> Map<Key, Action> {
    let n = KeyModifiers { bits: 0 };
    m.insert((KeyCode::Up, n), Action::MoveUp)
        .insert((KeyCode::Down, n), Action::MoveDown)
        .insert((KeyCode::Left, n), Action::MoveLeft)
        .insert((KeyCode::Right, n), Action::MoveRight)
}

/// The key map for the `[keys]` entries `cfg`.
pub open spec fn keymap_for(cfg: Seq<(Seq<char>, Seq<char>)>) -> Map<Key, Action> {
    with_arrows(configured(default_keymap(), cfg))
}

fn default_map() -> (r: KeyMap)
    ensures
        r.view_map() == default_keymap(),
{
    let n = KeyModifiers { bits: 0 };
    let mut m = KeyMap::new();
    m.insert((KeyCode::Char('k'), n), Action::MoveUp);
    m.insert((KeyCode::Char('j'), n), Action::MoveDown);
    m.insert((KeyCode::Char('h'), n), Action::MoveLeft);
    m.insert((KeyCode::Char('l'), n), Action::MoveRight);
    m.insert((KeyCode::Char('g'), n), Action::FirstEntry);
    m.insert((KeyCode::Char('G'), n), Action::LastEntry);
    m.insert((KeyCode::PageUp, n), Action::PageUp);
    m.insert((KeyCode::PageDown, n), Action::PageDown);
    m.insert((KeyCode::Enter, n), Action::Enter);
    m.insert((KeyCode::Backspace, n), Action::ParentDir);
    m.insert((KeyCode::Char('~'), n), Action::HomeDir);
    m.insert((KeyCode::Char(' '), n), Action::TagMove);
    m.insert((KeyCode::Home, n), Action::TagAll);
    m.insert((KeyCode::Char('q'), n), Action::Quit);
    m.insert((KeyCode::Char('!'), n), Action::ColMode1);
    m.insert((KeyCode::Char('@'), n), Action::ColMode2);
    m.insert((KeyCode::Char('#'), n), Action::ColMode3);
    m.insert((KeyCode::Char('%'), n), Action::ColMode5);
    m.insert((KeyCode::Char('K'), n), Action::Mkdir);
    m.insert((KeyCode::Char('J'), n), Action::DirJump);
    m.insert((KeyCode::Tab, n), Action::TreeToggle);
    m.insert((KeyCode::Char('e'), n), Action::Edit);
    m.insert((KeyCode::Char('x'), n), Action::Run);
    m.insert((KeyCode::Char(':'), n), Action::Func);
    m.insert((KeyCode::Char('b'), n), Action::Git);
    m.insert((KeyCode::Char('c'), n), Action::Copy);
    m.insert((KeyCode::Char('m'), n), Action::Move);
    m.insert((KeyCode::Char('d'), n), Action::Delete);
    m.insert((KeyCode::Char('a'), n), Action::Attr);
    m.insert((KeyCode::Char('/'), n), Action::Search);
    m.insert((KeyCode::Char('n'), n), Action::SearchNext);
    m.insert((KeyCode::Char('N'), n), Action::SearchPrev);
    m.insert((KeyCode::Char('s'), n), Action::Sort);
    m
}

/// Builds the key map: the built-in bindings, then each `[keys]` entry of
/// `cfg` in order (an entry replaces every earlier key of its action), then
/// the arrow keys, which always move the cursor.
pub fn build_keymap(cfg: &Vec<(String, String)>) -> (r: KeyMap)
    ensures
        r.view_map() == keymap_for(entry_views(cfg@)),
{
    let mut m = default_map();
    let mut i: usize = 0;
    while i < cfg.len()
        invariant
            i <= cfg.len(),
            m.view_map() == configured(default_keymap(), entry_views(cfg@).take(i as int)),
        decreases cfg.len() - i,
    {
        let ghost before = m.view_map();
        let act = action_from_str(cfg[i].0.as_str());
        let key = parse_key_str(cfg[i].1.as_str());
        proof {
            let t = entry_views(cfg@).take(i + 1);
            assert(t.drop_last() =~= entry_views(cfg@).take(i as int));
            assert(t.last() == (cfg@[i as int].0@, cfg@[i as int].1@));
        }
        match (act, key) {
            (Some(a), Some(k)) => {
                m.remove_action(a);
                m.insert(k, a);
            },
            _ => {},
        }
        i += 1;
    }
    assert(entry_views(cfg@).take(cfg.len() as int) =~= entry_views(cfg@));
    let n = KeyModifiers { bits: 0 };
    m.insert((KeyCode::Up, n), Action::MoveUp);
    m.insert((KeyCode::Down, n), Action::MoveDown);
    m.insert((KeyCode::Left, n), Action::MoveLeft);
    m.insert((KeyCode::Right, n), Action::MoveRight);
    m
}

// ── Menu labels ──────────────────────────────────────────────────────────

/// How a key is shown in the menu bar.
pub open spec fn key_text(c: KeyCode) -> Seq<char> {
    match c {
        KeyCode::Char(ch) => seq![ch],
        KeyCode::F(n) => seq!['F'] + dec(n as nat),
        KeyCode::Enter => "RET"@,
        KeyCode::Tab => "TAB"@,
        KeyCode::Esc => "ESC"@,
        _ => "?"@,
    }
}

/// `k` is a key that can label `a` in the menu bar: bound to `a`, without
/// modifiers, and not an arrow key.
pub open spec fn labels_action(m: Map<Key, Action>, a: Action, k: Key) -> bool {
    m.dom().contains(k) && m[k] == a && k.1.bits == 0 && !is_arrow(k.0)
}

fn key_text_of(c: KeyCode) -> (r: String)
    ensures
        r@ == key_text(c),
{
    let mut v: Vec<char> = Vec::new();
    match c {
        KeyCode::Char(ch) => {
            v.push(ch);
        },
        KeyCode::F(n) => {
            v.push('F');
            push_dec(&mut v, n as u64);
        },
        KeyCode::Enter => {
            v.push('R');
            v.push('E');
            v.push('T');
        },
        KeyCode::Tab => {
            v.push('T');
            v.push('A');
            v.push('B');
        },
        KeyCode::Esc => {
            v.push('E');
            v.push('S');
            v.push('C');
        },
        _ => {
            v.push('?');
        },
    }
    proof {
        reveal_strlit("RET");
        reveal_strlit("TAB");
        reveal_strlit("ESC");
        reveal_strlit("?");
        assert(v@ =~= key_text(c));
    }
    string_of(&v)
}

/// `t` is a menu-bar label of the key of `a` in `m`: the text of some
/// unmodified, non-arrow key bound to it, or `?` when there is none.
pub open spec fn is_key_label(m: Map<Key, Action>, a: Action, t: Seq<char>) -> bool {
    (exists|k: Key| labels_action(m, a, k) && t == key_text(k.0))
        || ((forall|k: Key| !labels_action(m, a, k)) && t == "?"@)
}

/// The menu-bar label of the key of `action` (see [`is_key_label`]).
pub fn key_label(keymap: &KeyMap, action: Action) -> (r: String)
    ensures
        is_key_label(keymap.view_map(), action, r@),
{
    proof {
        use_type_invariant(keymap);
    }
    let mut i: usize = 0;
    while i < keymap.bindings.len()
        invariant
            i <= keymap.bindings.len(),
            unique_keys(keymap.bindings@),
            forall|j: int|
                0 <= j < i ==> (#[trigger] keymap.bindings@[j]).2 != action || keymap.bindings@[j].1.bits != 0
                    || is_arrow(keymap.bindings@[j].0),
        decreases keymap.bindings.len() - i,
    {
        let (c, m, a) = keymap.bindings[i];
        let arrow = match c {
            KeyCode::Up | KeyCode::Down | KeyCode::Left | KeyCode::Right => true,
            _ => false,
        };
        if a == action && m.bits == 0 && !arrow {
            proof {
                lemma_bindings_at(keymap.bindings@, i as int);
                assert(labels_action(keymap.view_map(), action, (c, m)));
            }
            let t = key_text_of(c);
            assert(labels_action(keymap.view_map(), action, (c, m)) && t@ == key_text((c, m).0));
            return t;
        }
        i += 1;
    }
    proof {
        assert forall|k: Key| !labels_action(keymap.view_map(), action, k) by {
            if labels_action(keymap.view_map(), action, k) {
                lemma_bindings_dom(keymap.bindings@, k);
                let j = choose|j: int| 0 <= j < keymap.bindings@.len() && (#[trigger] keymap.bindings@[j]).0 == k.0 && keymap.bindings@[j].1 == k.1;
                lemma_bindings_at(keymap.bindings@, j);
                assert((keymap.bindings@[j].0, keymap.bindings@[j].1) == k);
            }
        }
        reveal_strlit("?");
    }
    let t = string_of(&['?']);
    proof {
        reveal_strlit("?");
        assert(t@ =~= "?"@);
    }
    t
}

/// The menu bar: each action with its Japanese and English label, in
/// display order.
pub open spec fn menu_entries() -> Seq<(Action, Seq<char>, Seq<char>)> {
    seq![
        (Action::Edit, "編集"@, "Edit"@),
        (Action::Run, "実行"@, "Run"@),
        (Action::Func, "機能"@, "Func"@),
        (Action::Git, "Git"@, "Git"@),
        (Action::TreeToggle, "ツリー"@, "Tree"@),
        (Action::Sort, "ソート"@, "Sort"@),
        (Action::Search, "検索"@, "Search"@),
        (Action::HomeDir, "ホーム"@, "Home"@),
        (Action::DirJump, "ジャンプ"@, "Jump"@),
        (Action::Copy, "複写"@, "Copy"@),
        (Action::Move, "移動"@, "Move"@),
        (Action::Delete, "削除"@, "Del"@),
        (Action::Attr, "権限"@, "Perm"@),
        (Action::Quit, "終了"@, "Quit"@),
    ]
}

/// The menu bar (see [`menu_entries`]).
pub fn menu_actions() -> (r: Vec<(Action, &'static str, &'static str)>)
    ensures
        r@.len() == 14,
        forall|i: int| 0 <= i < 14 ==> (r@[i].0, r@[i].1@, r@[i].2@) == #[trigger] menu_entries()[i],
        r@[0].0 == Action::Edit && r@[1].0 == Action::Run && r@[2].0 == Action::Func
            && r@[3].0 == Action::Git && r@[4].0 == Action::TreeToggle && r@[5].0 == Action::Sort
            && r@[6].0 == Action::Search && r@[7].0 == Action::HomeDir && r@[8].0 == Action::DirJump
            && r@[9].0 == Action::Copy && r@[10].0 == Action::Move && r@[11].0 == Action::Delete
            && r@[12].0 == Action::Attr && r@[13].0 == Action::Quit,
        r@[0].2@ == "Edit"@ && r@[1].2@ == "Run"@ && r@[2].2@ == "Func"@ && r@[3].2@ == "Git"@
            && r@[4].2@ == "Tree"@ && r@[5].2@ == "Sort"@ && r@[6].2@ == "Search"@ && r@[7].2@ == "Home"@
            && r@[8].2@ == "Jump"@ && r@[9].2@ == "Copy"@ && r@[10].2@ == "Move"@ && r@[11].2@ == "Del"@
            && r@[12].2@ == "Perm"@ && r@[13].2@ == "Quit"@,
        r@[0].1@ == "編集"@ && r@[1].1@ == "実行"@ && r@[2].1@ == "機能"@ && r@[3].1@ == "Git"@
            && r@[4].1@ == "ツリー"@ && r@[5].1@ == "ソート"@ && r@[6].1@ == "検索"@ && r@[7].1@ == "ホーム"@
            && r@[8].1@ == "ジャンプ"@ && r@[9].1@ == "複写"@ && r@[10].1@ == "移動"@ && r@[11].1@ == "削除"@
            && r@[12].1@ == "権限"@ && r@[13].1@ == "終了"@,
{
    let mut v: Vec<(Action, &'static str, &'static str)> = Vec::new();
    v.push((Action::Edit, "編集", "Edit"));
    v.push((Action::Run, "実行", "Run"));
    v.push((Action::Func, "機能", "Func"));
    v.push((Action::Git, "Git", "Git"));
    v.push((Action::TreeToggle, "ツリー", "Tree"));
    v.push((Action::Sort, "ソート", "Sort"));
    v.push((Action::Search, "検索", "Search"));
    v.push((Action::HomeDir, "ホーム", "Home"));
    v.push((Action::DirJump, "ジャンプ", "Jump"));
    v.push((Action::Copy, "複写", "Copy"));
    v.push((Action::Move, "移動", "Move"));
    v.push((Action::Delete, "削除", "Del"));
    v.push((Action::Attr, "権限", "Perm"));
    v.push((Action::Quit, "終了", "Quit"));
    assert forall|i: int| 0 <= i < 14 implies (v@[i].0, v@[i].1@, v@[i].2@) == #[trigger] menu_entries()[i] by {
        if i == 0 {} else if i == 1 {} else if i == 2 {} else if i == 3 {} else if i == 4 {}
        else if i == 5 {} else if i == 6 {} else if i == 7 {} else if i == 8 {} else if i == 9 {}
        else if i == 10 {} else if i == 11 {} else if i == 12 {} else {}
    }
    v
}

// ── Laws ─────────────────────────────────────────────────────────────────

/// Whatever the `[keys]` table holds, the four arrow keys without
/// modifiers move the cursor up, down, left and right.
pub proof fn law_arrows_cannot_be_rebound(cfg: Seq<(Seq<char>, Seq<char>)>)
    ensures
        keymap_for(cfg)[(KeyCode::Up, KeyModifiers { bits: 0 })] == Action::MoveUp,
        keymap_for(cfg)[(KeyCode::Down, KeyModifiers { bits: 0 })] == Action::MoveDown,
        keymap_for(cfg)[(KeyCode::Left, KeyModifiers { bits: 0 })] == Action::MoveLeft,
        keymap_for(cfg)[(KeyCode::Right, KeyModifiers { bits: 0 })] == Action::MoveRight,
        keymap_for(cfg).dom().contains((KeyCode::Up, KeyModifiers { bits: 0 })),
        keymap_for(cfg).dom().contains((KeyCode::Down, KeyModifiers { bits: 0 })),
        keymap_for(cfg).dom().contains((KeyCode::Left, KeyModifiers { bits: 0 })),
        keymap_for(cfg).dom().contains((KeyCode::Right, KeyModifiers { bits: 0 })),
{
}

/// Remapping an action moves it: after a `[keys]` entry that binds action
/// `a` to key `k` (both names valid, `k` not an unmodified arrow key),
/// pressing `k` gives `a`, and no other key gives `a` but the arrow key that
/// always aliases it.
pub proof fn law_remap_replaces(cfg: Seq<(Seq<char>, Seq<char>)>, a: Action, k: Key)
    requires
        cfg.len() > 0,
        action_of(cfg.last().0) == Some(a),
        key_of(cfg.last().1) == Some(k),
        !(is_arrow(k.0) && k.1.bits == 0),
    ensures
        keymap_for(cfg).dom().contains(k),
        keymap_for(cfg)[k] == a,
        forall|k2: Key|
            #![trigger keymap_for(cfg)[k2]]
            keymap_for(cfg).dom().contains(k2) && keymap_for(cfg)[k2] == a && k2 != k ==> is_arrow(
                k2.0,
            ) && k2.1.bits == 0,
{
    let prev = configured(default_keymap(), cfg.drop_last());
    let c = configured(default_keymap(), cfg);
    assert(c == without_action(prev, a).insert(k, a));
    assert forall|k2: Key|
        #![trigger keymap_for(cfg)[k2]]
        keymap_for(cfg).dom().contains(k2) && keymap_for(cfg)[k2] == a && k2 != k implies is_arrow(k2.0) && k2.1.bits == 0 by {
        if !(is_arrow(k2.0) && k2.1.bits == 0) {
            assert(keymap_for(cfg)[k2] == c[k2]);
            assert(c[k2] == without_action(prev, a)[k2]);
        }
    }
}

} // verus!
