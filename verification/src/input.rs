//! A one-line text field with a cursor.
use vstd::prelude::*;
use crate::text::{chars_to_string, str_chars, sub_chars};
use crate::ui::{KeyCode, KeyEvent};

verus! {

/// Text and cursor (a character position) after an editing key, and
/// whether the text changed.
pub open spec fn edit_spec(v: Seq<char>, c: int, key: KeyEvent) -> (Seq<char>, int, bool) {
    match key.code {
        KeyCode::Backspace => if c > 0 {
            (v.take(c - 1) + v.skip(c), c - 1, true)
        } else {
            (v, c, false)
        },
        KeyCode::Delete => if c < v.len() {
            (v.take(c) + v.skip(c + 1), c, true)
        } else {
            (v, c, false)
        },
        KeyCode::Left => (v, if c > 0 { c - 1 } else { c }, false),
        KeyCode::Right => (v, if c < v.len() { c + 1 } else { c }, false),
        KeyCode::Home => if key.ctrl { (v, 0, false) } else { (v, c, false) },
        KeyCode::End => if key.ctrl { (v, v.len() as int, false) } else { (v, c, false) },
        KeyCode::Char(ch) => if key.ctrl && ch == 'a' {
            (v, 0, false)
        } else if key.ctrl && ch == 'e' {
            (v, v.len() as int, false)
        } else if key.ctrl && ch == 'u' {
            (v.skip(c), 0, c > 0)
        } else {
            (v.take(c) + seq![ch] + v.skip(c), c + 1, true)
        },
        _ => (v, c, false),
    }
}

/// A one-line text field.
#[derive(Debug)]
pub struct SingleLineInput {
    value: String,
    cursor: usize,
}

impl SingleLineInput {
    #[verifier::type_invariant]
    spec fn cursor_in_text(self) -> bool {
        self.cursor <= self.value@.len()
    }

    /// The text.
    pub closed spec fn text(self) -> Seq<char> {
        self.value@
    }

    /// The cursor, as a character position in the text.
    pub closed spec fn cursor_at(self) -> int {
        self.cursor as int
    }

    /// An empty field.
    pub fn new() -> (r: Self)
        ensures
            r.text() == Seq::<char>::empty(),
            r.cursor_at() == 0,
    {
        SingleLineInput { value: String::new(), cursor: 0 }
    }

    /// Replaces the text; the cursor goes to its end.
    pub fn set(&mut self, value: String)
        ensures
            final(self).text() == value@,
            final(self).cursor_at() == value@.len(),
    {
        let n = value.as_str().unicode_len();
        *self = SingleLineInput { value, cursor: n };
    }

    /// Empties the field.
    pub fn clear(&mut self)
        ensures
            final(self).text() == Seq::<char>::empty(),
            final(self).cursor_at() == 0,
    {
        *self = SingleLineInput { value: String::new(), cursor: 0 };
    }

    /// The text.
    pub fn value(&self) -> (r: &str)
        ensures
            r@ == self.text(),
    {
        self.value.as_str()
    }

    /// Whether the field is empty.
    pub fn is_empty(&self) -> (r: bool)
        ensures
            r == (self.text().len() == 0),
    {
        self.value.as_str().unicode_len() == 0
    }

    /// The cursor position.
    pub fn cursor(&self) -> (r: usize)
        ensures
            r == self.cursor_at(),
            r <= self.text().len(),
    {
        proof {
            use_type_invariant(self);
        }
        self.cursor
    }

    /// Text before the cursor, the character under it (a space at the end),
    /// and the text after that character.
    pub fn cursor_parts(&self) -> (r: (String, String, String))
        ensures
            r.0@ == self.text().take(self.cursor_at()),
            r.1@ == (if self.cursor_at() < self.text().len() { seq![self.text()[self.cursor_at()]] } else { seq![' '] }),
            r.2@ == (if self.cursor_at() < self.text().len() { self.text().skip(self.cursor_at() + 1) } else { Seq::<char>::empty() }),
    {
        proof {
            use_type_invariant(self);
        }
        let v = str_chars(self.value.as_str());
        let c = self.cursor;
        let before = sub_chars(v.as_slice(), 0, c);
        assert(before@ =~= v@.take(c as int));
        if c < v.len() {
            let under = vec![v[c]];
            let after = sub_chars(v.as_slice(), c + 1, v.len());
            assert(after@ =~= v@.skip(c + 1));
            (chars_to_string(before.as_slice()), chars_to_string(under.as_slice()), chars_to_string(after.as_slice()))
        } else {
            let space = vec![' '];
            let none: Vec<char> = Vec::new();
            (chars_to_string(before.as_slice()), chars_to_string(space.as_slice()), chars_to_string(none.as_slice()))
        }
    }

    /// Esc answers `cancel`, Enter answers `confirm`; other keys edit.
    pub fn handle_key_event<A>(&mut self, key: KeyEvent, cancel: A, confirm: A) -> (r: Option<A>)
        ensures
            key.code == KeyCode::Esc ==> r == Some(cancel) && *final(self) == *old(self),
            key.code == KeyCode::Enter ==> r == Some(confirm) && *final(self) == *old(self),
            key.code != KeyCode::Esc && key.code != KeyCode::Enter ==> {
                let e = edit_spec(old(self).text(), old(self).cursor_at(), key);
                &&& r is None
                &&& final(self).text() == e.0
                &&& final(self).cursor_at() == e.1
            },
    {
        match key.code {
            KeyCode::Esc => Some(cancel),
            KeyCode::Enter => Some(confirm),
            _ => {
                self.handle_edit_key_event(key);
                None
            },
        }
    }

    /// Applies an editing key: Backspace and Delete remove a character,
    /// Left and Right move the cursor, Ctrl+Home/Ctrl+A and Ctrl+End/Ctrl+E
    /// jump to either end, Ctrl+U deletes up to the cursor, and a character
    /// is inserted at the cursor. Tells whether the text changed.
    pub fn handle_edit_key_event(&mut self, key: KeyEvent) -> (changed: bool)
        ensures
            ({
                let e = edit_spec(old(self).text(), old(self).cursor_at(), key);
                &&& final(self).text() == e.0
                &&& final(self).cursor_at() == e.1
                &&& changed == e.2
            }),
    {
        proof {
            use_type_invariant(&*self);
        }
        let v = str_chars(self.value.as_str());
        let c = self.cursor;
        let n = v.len();
        match key.code {
            KeyCode::Backspace => {
                if c > 0 {
                    let mut w = sub_chars(v.as_slice(), 0, c - 1);
                    let tail = sub_chars(v.as_slice(), c, n);
                    w.append(&mut tail.clone());
                    assert(w@ =~= v@.take(c - 1) + v@.skip(c as int));
                    *self = SingleLineInput { value: chars_to_string(w.as_slice()), cursor: c - 1 };
                    return true;
                }
                false
            },
            KeyCode::Delete => {
                if c < n {
                    let mut w = sub_chars(v.as_slice(), 0, c);
                    let tail = sub_chars(v.as_slice(), c + 1, n);
                    w.append(&mut tail.clone());
                    assert(w@ =~= v@.take(c as int) + v@.skip(c + 1));
                    *self = SingleLineInput { value: chars_to_string(w.as_slice()), cursor: c };
                    return true;
                }
                false
            },
            KeyCode::Left => {
                if c > 0 {
                    *self = SingleLineInput { value: chars_to_string(v.as_slice()), cursor: c - 1 };
                }
                false
            },
            KeyCode::Right => {
                if c < n {
                    *self = SingleLineInput { value: chars_to_string(v.as_slice()), cursor: c + 1 };
                }
                false
            },
            KeyCode::Home => {
                if key.ctrl {
                    *self = SingleLineInput { value: chars_to_string(v.as_slice()), cursor: 0 };
                }
                false
            },
            KeyCode::End => {
                if key.ctrl {
                    *self = SingleLineInput { value: chars_to_string(v.as_slice()), cursor: n };
                }
                false
            },
            KeyCode::Char(ch) => {
                if key.ctrl && ch == 'a' {
                    *self = SingleLineInput { value: chars_to_string(v.as_slice()), cursor: 0 };
                    false
                } else if key.ctrl && ch == 'e' {
                    *self = SingleLineInput { value: chars_to_string(v.as_slice()), cursor: n };
                    false
                } else if key.ctrl && ch == 'u' {
                    let w = sub_chars(v.as_slice(), c, n);
                    assert(w@ =~= v@.skip(c as int));
                    *self = SingleLineInput { value: chars_to_string(w.as_slice()), cursor: 0 };
                    c > 0
                } else {
                    let mut w = sub_chars(v.as_slice(), 0, c);
                    w.push(ch);
                    let new_c = w.len();
                    let tail = sub_chars(v.as_slice(), c, n);
                    w.append(&mut tail.clone());
                    assert(w@ =~= v@.take(c as int) + seq![ch] + v@.skip(c as int));
                    *self = SingleLineInput { value: chars_to_string(w.as_slice()), cursor: new_c };
                    true
                }
            },
            _ => false,
        }
    }
}

} // verus!
