//! Shell command-line buffer and command history.

use crate::term::{newlines_spec, newlines_text, NEWLINE_STR};
use crate::text::{
    char_index_of_byte, char_pos, chars_of, find_ws, is_whitespace, is_ws, lemma_char_pos_bounds,
    lemma_char_pos_prefix, lemma_find_ws_bounds, lemma_trim, push_char, str_equal, to_string, trim,
    trim_spec,
};
use vstd::prelude::*;
use vstd::string::*;

verus! {

/// The set of modifier keys held during a key press.
#[derive(Clone, Copy, Debug, PartialEq, Eq, Hash)]
pub struct KeyModifiers {
    pub shift: bool,
    pub control: bool,
    pub alt: bool,
}

impl KeyModifiers {
    /// No modifier held.
    pub fn empty() -> (m: Self)
        ensures
            !m.shift && !m.control && !m.alt,
    {
        KeyModifiers { shift: false, control: false, alt: false }
    }

    /// Exactly the control modifier held.
    pub fn control() -> (m: Self)
        ensures
            !m.shift && m.control && !m.alt,
    {
        KeyModifiers { shift: false, control: true, alt: false }
    }

    /// Whether no modifier is held.
    pub fn is_empty(&self) -> (b: bool)
        ensures
            b == (!self.shift && !self.control && !self.alt),
    {
        !self.shift && !self.control && !self.alt
    }

    /// Whether the control modifier, and no other, is held.
    pub fn is_control_only(&self) -> (b: bool)
        ensures
            b == (!self.shift && self.control && !self.alt),
    {
        !self.shift && self.control && !self.alt
    }
}

/// A key.
#[derive(Clone, Copy, Debug, PartialEq, Eq, Hash)]
pub enum KeyCode {
    Backspace,
    Enter,
    Left,
    Right,
    Up,
    Down,
    Home,
    End,
    PageUp,
    PageDown,
    Tab,
    BackTab,
    Delete,
    Insert,
    F(u8),
    Char(char),
    Null,
    Esc,
}

/// A key press: the key and the modifiers held with it.
#[derive(Clone, Copy, Debug, PartialEq, Eq, Hash)]
pub struct KeyEvent {
    pub code: KeyCode,
    pub modifiers: KeyModifiers,
}

/// A container for the command line buffer and command history.
///
/// The last history entry is the line being edited; `index` selects the entry
/// shown, and `pointer` is the cursor. Moving the cursor counts characters,
/// while inserting and removing read the cursor as a byte offset into the
/// line's UTF-8 text (the two agree on ASCII text).
#[derive(Clone, Debug, PartialEq, Eq, Hash)]
pub struct CommandLine {
    history: Vec<String>,
    index: usize,
    pointer: usize,
    /// Command prompt string.
    pub prompt: String,
}

/// Signal from [`CommandLine::update`].
#[derive(Clone, Copy, Debug, Eq, Hash, Ord, PartialEq, PartialOrd)]
pub enum CommandLineSignal<'e> {
    /// Control character
    Control(char),
    /// Entered command and arguments
    Enter { command: &'e str, args: &'e str },
}

/// The command and the arguments of a line: the trimmed line split at its
/// first whitespace character, the arguments trimmed again.
pub open spec fn parse_buffer_spec(s: Seq<char>) -> (Seq<char>, Seq<char>) {
    let t = trim_spec(s);
    let w = find_ws(t, 0);
    if w < t.len() {
        (t.subrange(0, w), trim_spec(t.subrange(w + 1, t.len() as int)))
    } else {
        (t, Seq::empty())
    }
}

/// `s` with `c` inserted before position `p`.
pub open spec fn insert_at(s: Seq<char>, p: int, c: char) -> Seq<char> {
    s.subrange(0, p) + seq![c] + s.subrange(p, s.len() as int)
}

/// `s` without the character at position `p`.
pub open spec fn remove_at(s: Seq<char>, p: int) -> Seq<char> {
    s.subrange(0, p) + s.subrange(p + 1, s.len() as int)
}

impl CommandLine {
    /// Default prompt for the command line
    pub const DEFAULT_PROMPT: &'static str = "q❯ ";

    /// The history entries, as character sequences.
    pub closed spec fn hist(&self) -> Seq<Seq<char>> {
        self.history@.map_values(|s: String| s@)
    }

    /// The index of the entry shown.
    pub closed spec fn idx(&self) -> int {
        self.index as int
    }

    /// The cursor position.
    pub closed spec fn ptr(&self) -> int {
        self.pointer as int
    }

    /// The prompt, as characters.
    pub closed spec fn prompt_chars(&self) -> Seq<char> {
        self.prompt@
    }

    /// The index of the last entry, the line being edited.
    pub open spec fn last(&self) -> int {
        self.hist().len() - 1
    }

    /// The line shown.
    pub open spec fn cur(&self) -> Seq<char> {
        self.hist()[self.idx()]
    }

    /// The history is not empty, `index` selects an entry and the cursor lies
    /// within the entry shown.
    pub open spec fn wf(&self) -> bool {
        &&& self.hist().len() >= 1
        &&& 0 <= self.idx() < self.hist().len()
        &&& 0 <= self.ptr() <= self.cur().len()
    }

    /// Build a command line from the given prompt string.
    pub fn with_prompt(prompt: &str) -> (cl: Self)
        ensures
            cl.wf(),
            cl.hist() == seq![Seq::<char>::empty()],
            cl.idx() == 0,
            cl.ptr() == 0,
            cl.prompt_chars() == prompt@,
    {
        let cl = CommandLine {
            history: vec![String::new()],
            index: 0,
            pointer: 0,
            prompt: String::from_str(prompt),
        };
        assert(cl.hist() =~= seq![Seq::<char>::empty()]);
        cl
    }

    /// Build the default prompt.
    pub fn new() -> (cl: Self)
        ensures
            cl.wf(),
            cl.hist() == seq![Seq::<char>::empty()],
            cl.idx() == 0,
            cl.ptr() == 0,
            cl.prompt_chars() == Self::DEFAULT_PROMPT@,
    {
        Self::with_prompt(Self::DEFAULT_PROMPT)
    }

    /// `post` shows the same prompt and history as `self`.
    pub open spec fn same_lines(self, post: Self) -> bool {
        &&& post.hist() == self.hist()
        &&& post.prompt_chars() == self.prompt_chars()
    }

    /// `post` is `self` after the `up` action: the previous entry is shown,
    /// with the cursor at its end; at the first entry nothing changes.
    pub open spec fn after_up(self, post: Self) -> bool {
        &&& self.same_lines(post)
        &&& if self.idx() > 0 {
            post.idx() == self.idx() - 1 && post.ptr() == self.hist()[self.idx() - 1].len()
        } else {
            post.idx() == self.idx() && post.ptr() == self.ptr()
        }
    }

    /// `post` is `self` after the `down` action: the next entry is shown,
    /// with the cursor at its end; at the last entry nothing changes.
    pub open spec fn after_down(self, post: Self) -> bool {
        &&& self.same_lines(post)
        &&& if self.idx() < self.last() {
            post.idx() == self.idx() + 1 && post.ptr() == self.hist()[self.idx() + 1].len()
        } else {
            post.idx() == self.idx() && post.ptr() == self.ptr()
        }
    }

    /// `post` is `self` with the cursor moved to position `p`.
    pub open spec fn moved_to(self, post: Self, p: int) -> bool {
        &&& self.same_lines(post)
        &&& post.idx() == self.idx()
        &&& post.ptr() == p
    }

    /// `post` is `self` after the `left` action.
    pub open spec fn after_left(self, post: Self) -> bool {
        self.moved_to(post, if self.ptr() > 0 { self.ptr() - 1 } else { self.ptr() })
    }

    /// `post` is `self` after the `right` action.
    pub open spec fn after_right(self, post: Self) -> bool {
        self.moved_to(post, if self.ptr() < self.cur().len() { self.ptr() + 1 } else { self.ptr() })
    }

    /// Where `insert` puts a character: the position of the character that
    /// starts at byte `ptr` of the line shown, if that byte is a character
    /// boundary.
    pub open spec fn insert_pos(self) -> Option<int> {
        char_pos(self.cur(), self.ptr())
    }

    /// Which character `remove` takes away: the one that starts at byte
    /// `ptr - 1` of the line shown, if that byte is a character boundary.
    pub open spec fn remove_pos(self) -> Option<int> {
        char_pos(self.cur(), self.ptr() - 1)
    }

    /// `post` is `self` after inserting `c` at the cursor's byte offset: the
    /// shown line with `c` inserted there becomes the edited (last) line and
    /// is shown, the cursor one further on.
    pub open spec fn after_insert(self, post: Self, c: char) -> bool {
        match self.insert_pos() {
            Some(k) => {
                &&& post.hist() == self.hist().update(self.last(), insert_at(self.cur(), k, c))
                &&& post.prompt_chars() == self.prompt_chars()
                &&& post.idx() == self.last()
                &&& post.ptr() == self.ptr() + 1
            },
            None => false,
        }
    }

    /// `post` is `self` after removing the character that starts one byte
    /// before the cursor: at the start of the line nothing changes; otherwise
    /// the shown line without that character becomes the edited line and is
    /// shown, the cursor one back.
    pub open spec fn after_remove(self, post: Self) -> bool {
        if self.ptr() == 0 {
            &&& self.same_lines(post)
            &&& post.idx() == self.idx()
            &&& post.ptr() == self.ptr()
        } else {
            match self.remove_pos() {
                Some(k) => {
                    &&& post.hist() == self.hist().update(self.last(), remove_at(self.cur(), k))
                    &&& post.prompt_chars() == self.prompt_chars()
                    &&& post.idx() == self.last()
                    &&& post.ptr() == self.ptr() - 1
                },
                None => false,
            }
        }
    }

    /// The character `remove` takes away, if any.
    pub open spec fn removed_char(self) -> Option<char> {
        if self.ptr() == 0 {
            None
        } else {
            Some(self.cur()[self.remove_pos().unwrap()])
        }
    }

    /// `post` is `self` with the edited line emptied and shown.
    pub open spec fn after_reset_current(self, post: Self) -> bool {
        &&& post.hist() == self.hist().update(self.last(), Seq::<char>::empty())
        &&& post.prompt_chars() == self.prompt_chars()
        &&& post.idx() == self.last()
        &&& post.ptr() == 0
    }

    /// `post` is `self` after saving the shown line. An empty line changes
    /// nothing. A line equal to the most recent saved entry is not saved
    /// again: the edited line is emptied. Otherwise the line becomes the last
    /// entry and a new empty edited line follows it. Either way the empty
    /// edited line is shown with the cursor at 0.
    pub open spec fn after_save(self, post: Self) -> bool {
        let n = self.hist().len();
        if self.cur().len() == 0 {
            &&& self.same_lines(post)
            &&& post.idx() == self.idx()
            &&& post.ptr() == self.ptr()
        } else if n > 1 && self.hist()[n - 2] == self.cur() {
            &&& post.hist() == self.hist().update(n - 1, Seq::<char>::empty())
            &&& post.prompt_chars() == self.prompt_chars()
            &&& post.idx() == n - 1
            &&& post.ptr() == 0
        } else {
            &&& post.hist() == self.hist().update(n - 1, self.cur()).push(Seq::<char>::empty())
            &&& post.prompt_chars() == self.prompt_chars()
            &&& post.idx() == n
            &&& post.ptr() == 0
        }
    }

    /// Return a slice of the internal history buffer: the saved entries
    /// without the most recent one and without the edited line.
    pub fn history(&self) -> (h: &[String])
        requires
            self.wf(),
            self.hist().len() >= 2,
        ensures
            h@.map_values(|s: String| s@) == self.hist().subrange(0, self.hist().len() - 2),
    {
        let n = self.history.len();
        let h = vstd::slice::slice_subrange(self.history.as_slice(), 0, n - 2);
        assert(h@.map_values(|s: String| s@) =~= self.hist().subrange(0, self.hist().len() - 2));
        h
    }

    /// The number of history entries, the edited line included.
    pub fn history_len(&self) -> (n: usize)
        ensures
            n == self.hist().len(),
    {
        self.history.len()
    }

    /// Clear history.
    pub fn clear(&mut self)
        requires
            old(self).wf(),
        ensures
            final(self).wf(),
            final(self).hist() == seq![Seq::<char>::empty()],
            final(self).idx() == 0,
            final(self).ptr() == 0,
            final(self).prompt_chars() == old(self).prompt_chars(),
    {
        let prompt = self.prompt.clone();
        *self = Self::with_prompt(prompt.as_str());
    }

    /// Reset the history index to the edited line.
    fn reset_index(&mut self)
        requires
            old(self).hist().len() >= 1,
        ensures
            final(self).same_lines(*old(self)),
            final(self).idx() == old(self).last(),
            final(self).ptr() == old(self).ptr(),
    {
        self.index = self.history.len() - 1;
    }

    /// Reset the cursor to the end of the shown line.
    fn reset_pointer(&mut self)
        requires
            0 <= old(self).idx() < old(self).hist().len(),
        ensures
            old(self).moved_to(*final(self), old(self).cur().len() as int),
    {
        self.pointer = self.current().unicode_len();
    }

    /// Run the `up` action on the command line.
    pub fn action_up(&mut self)
        requires
            old(self).wf(),
        ensures
            final(self).wf(),
            old(self).after_up(*final(self)),
    {
        if self.index > 0 {
            self.index = self.index - 1;
            self.reset_pointer();
        }
    }

    /// Run the `down` action on the command line.
    pub fn action_down(&mut self)
        requires
            old(self).wf(),
        ensures
            final(self).wf(),
            old(self).after_down(*final(self)),
    {
        if self.index < self.history.len() - 1 {
            self.index = self.index + 1;
            self.reset_pointer();
        }
    }

    /// Run the `left` action on the command line.
    pub fn action_left(&mut self)
        requires
            old(self).wf(),
        ensures
            final(self).wf(),
            old(self).after_left(*final(self)),
    {
        if self.pointer > 0 {
            self.pointer = self.pointer - 1;
        }
    }

    /// Run the `right` action on the command line.
    pub fn action_right(&mut self)
        requires
            old(self).wf(),
        ensures
            final(self).wf(),
            old(self).after_right(*final(self)),
    {
        if self.pointer < self.current().unicode_len() {
            self.pointer = self.pointer + 1;
        }
    }

    /// Run the `tab` action on the command line: it changes nothing.
    pub fn action_tab(&mut self)
        requires
            old(self).wf(),
        ensures
            final(self).wf(),
            *final(self) == *old(self),
    {
    }

    /// Run the `^A` (control A) action on the command line.
    pub fn action_control_a(&mut self)
        requires
            old(self).wf(),
        ensures
            final(self).wf(),
            old(self).moved_to(*final(self), 0),
    {
        self.pointer = 0;
    }

    /// Run the `^E` (control E) action on the command line.
    pub fn action_control_e(&mut self)
        requires
            old(self).wf(),
        ensures
            final(self).wf(),
            old(self).moved_to(*final(self), old(self).cur().len() as int),
    {
        self.reset_pointer()
    }

    /// Return shared reference to the current command line buffer.
    pub fn current(&self) -> (s: &str)
        requires
            0 <= self.idx() < self.hist().len(),
        ensures
            s@ == self.cur(),
    {
        self.history[self.index].as_str()
    }

    /// Replace the edited (last) line with `line`.
    fn set_last(&mut self, line: String)
        requires
            old(self).hist().len() >= 1,
        ensures
            final(self).hist() == old(self).hist().update(old(self).last(), line@),
            final(self).prompt_chars() == old(self).prompt_chars(),
            final(self).idx() == old(self).idx(),
            final(self).ptr() == old(self).ptr(),
    {
        let last = self.history.len() - 1;
        self.history.set(last, line);
        assert(self.hist() =~= old(self).hist().update(old(self).last(), line@));
    }

    /// Whether `insert` can run: the cursor's byte offset is a character
    /// boundary of the line shown (and the line has room for one more
    /// character).
    pub fn can_insert(&self) -> (b: bool)
        requires
            self.wf(),
        ensures
            b == (self.cur().len() < usize::MAX && self.insert_pos() is Some),
    {
        let cur = self.current();
        cur.unicode_len() < usize::MAX && char_index_of_byte(cur, self.pointer).is_some()
    }

    /// Whether `remove` can run: the cursor is at the start of the line, or
    /// the byte before it starts a character of the line shown.
    pub fn can_remove(&self) -> (b: bool)
        requires
            self.wf(),
        ensures
            b == (self.ptr() == 0 || self.remove_pos() is Some),
    {
        self.pointer == 0 || char_index_of_byte(self.current(), self.pointer - 1).is_some()
    }

    /// Insert a `char` to the current command line buffer.
    pub fn insert(&mut self, c: char)
        requires
            old(self).wf(),
            old(self).cur().len() < usize::MAX,
            old(self).insert_pos() is Some,
        ensures
            final(self).wf(),
            old(self).after_insert(*final(self), c),
    {
        let cur = self.current();
        let n = cur.unicode_len();
        let k = char_index_of_byte(cur, self.pointer).unwrap();
        proof {
            lemma_char_pos_bounds(cur@, self.ptr());
        }
        let mut line = String::from_str(cur.substring_char(0, k));
        push_char(&mut line, c);
        line.append(cur.substring_char(k, n));
        assert(line@ =~= insert_at(old(self).cur(), k as int, c));
        self.set_last(line);
        self.pointer = self.pointer + 1;
        self.reset_index();
    }

    /// Remove a `char` from the current command line buffer.
    pub fn remove(&mut self) -> (r: Option<char>)
        requires
            old(self).wf(),
            old(self).ptr() > 0 ==> old(self).remove_pos() is Some,
        ensures
            final(self).wf(),
            old(self).after_remove(*final(self)),
            r == old(self).removed_char(),
    {
        if self.pointer == 0 {
            return None;
        }
        let cur = self.current();
        let n = cur.unicode_len();
        let k = char_index_of_byte(cur, self.pointer - 1).unwrap();
        proof {
            lemma_char_pos_bounds(cur@, self.ptr() - 1);
        }
        let result = cur.get_char(k);
        let mut line = String::from_str(cur.substring_char(0, k));
        line.append(cur.substring_char(k + 1, n));
        assert(line@ =~= remove_at(old(self).cur(), k as int));
        self.set_last(line);
        self.pointer = self.pointer - 1;
        self.reset_index();
        Some(result)
    }

    /// Reset the current buffer.
    pub fn reset_current(&mut self)
        requires
            old(self).wf(),
        ensures
            final(self).wf(),
            old(self).after_reset_current(*final(self)),
    {
        self.set_last(String::new());
        self.reset_index();
        self.reset_pointer();
    }

    /// Parse the given buffer by splitting along the first whitespace.
    fn parse_buffer(buffer: &str) -> (r: (&str, &str))
        ensures
            r.0@ == parse_buffer_spec(buffer@).0,
            r.1@ == parse_buffer_spec(buffer@).1,
    {
        let t = trim(buffer);
        let v = chars_of(t);
        let n = v.len();
        let mut w: usize = 0;
        while w < n && !is_whitespace(v[w])
            invariant
                w <= n,
                n == t@.len(),
                v@ == t@,
                find_ws(t@, w as int) == find_ws(t@, 0),
            decreases n - w,
        {
            w = w + 1;
        }
        if w < n {
            (t.substring_char(0, w), trim(t.substring_char(w + 1, n)))
        } else {
            proof {
                reveal_strlit("");
            }
            (t, "")
        }
    }

    /// Save the current command line buffer to history, reset, and return
    /// the parsed buffer.
    pub fn save_current(&mut self) -> (r: (&str, &str))
        requires
            old(self).wf(),
        ensures
            final(self).wf(),
            old(self).after_save(*final(self)),
            r.0@ == parse_buffer_spec(old(self).cur()).0,
            r.1@ == parse_buffer_spec(old(self).cur()).1,
    {
        if self.current().unicode_len() == 0 {
            proof {
                reveal_strlit("");
                assert(trim_spec(old(self).cur()) =~= Seq::<char>::empty());
            }
            return ("", "");
        }
        let len = self.history.len();
        if len > 1 {
            let cur = self.current();
            if str_equal(self.history[len - 2].as_str(), cur) {
                assert(old(self).hist()[len - 2] == old(self).cur());
                self.set_last(String::new());
                self.index = len - 1;
                self.reset_pointer();
                assert(self.hist()[len - 2] == old(self).hist()[len - 2]);
                assert(self.history@.len() == self.hist().len());
                return Self::parse_buffer(self.history[self.index - 1].as_str());
            } else if self.index != len - 1 {
                let line = String::from_str(cur);
                self.set_last(line);
            }
        }
        assert(self.hist() =~= old(self).hist().update(len - 1, old(self).cur()));
        assert(self.history@.len() == self.hist().len());
        assert(self.history@[len - 1]@ == self.hist()[len - 1]);
        assert(self.history@[len - 1]@.len() > 0);
        if self.history[self.history.len() - 1].unicode_len() != 0 {
            self.history.push(String::new());
        }
        assert(self.hist() =~= old(self).hist().update(len - 1, old(self).cur()).push(
            Seq::<char>::empty(),
        ));
        self.reset_index();
        self.reset_pointer();
        assert(self.hist()[self.idx() - 1] == old(self).cur());
        Self::parse_buffer(self.history[self.index - 1].as_str())
    }

    /// Update the command line according to the given event.
    pub fn update(&mut self, key: KeyEvent) -> (r: Option<CommandLineSignal>)
        requires
            old(self).wf(),
            key.code is Char && !key.modifiers.shift && !key.modifiers.control
                && !key.modifiers.alt ==> old(self).cur().len() < usize::MAX && old(
                self,
            ).insert_pos() is Some,
            key.code is Backspace && old(self).ptr() > 0 ==> old(self).remove_pos() is Some,
        ensures
            final(self).wf(),
            match key.code {
                KeyCode::Up => old(self).after_up(*final(self)) && r is None,
                KeyCode::Down => old(self).after_down(*final(self)) && r is None,
                KeyCode::Left => old(self).after_left(*final(self)) && r is None,
                KeyCode::Right => old(self).after_right(*final(self)) && r is None,
                KeyCode::Backspace => old(self).after_remove(*final(self)) && r is None,
                KeyCode::Char(c) => if key.modifiers.control && !key.modifiers.shift
                    && !key.modifiers.alt {
                    &&& r == Some(CommandLineSignal::Control(c))
                    &&& if c == 'c' || c == 'l' {
                        old(self).after_reset_current(*final(self))
                    } else if c == 'a' {
                        old(self).moved_to(*final(self), 0)
                    } else if c == 'e' {
                        old(self).moved_to(*final(self), old(self).cur().len() as int)
                    } else {
                        *final(self) == *old(self)
                    }
                } else if !key.modifiers.control && !key.modifiers.shift && !key.modifiers.alt {
                    old(self).after_insert(*final(self), c) && r is None
                } else {
                    *final(self) == *old(self) && r is None
                },
                KeyCode::Enter => {
                    &&& old(self).after_save(*final(self))
                    &&& match r {
                        Some(CommandLineSignal::Enter { command, args }) => {
                            &&& command@ == parse_buffer_spec(old(self).cur()).0
                            &&& args@ == parse_buffer_spec(old(self).cur()).1
                        },
                        _ => false,
                    }
                },
                _ => *final(self) == *old(self) && r is None,
            },
    {
        match key.code {
            KeyCode::Up => self.action_up(),
            KeyCode::Down => self.action_down(),
            KeyCode::Left => self.action_left(),
            KeyCode::Right => self.action_right(),
            KeyCode::Tab => self.action_tab(),
            KeyCode::Backspace => {
                self.remove();
            },
            KeyCode::Char(c) => {
                if key.modifiers.is_control_only() {
                    if c == 'c' || c == 'l' {
                        self.reset_current();
                    } else if c == 'a' {
                        self.action_control_a();
                    } else if c == 'e' {
                        self.action_control_e();
                    }
                    return Some(CommandLineSignal::Control(c));
                } else if key.modifiers.is_empty() {
                    self.insert(c);
                }
            },
            KeyCode::Enter => {
                let (command, args) = self.save_current();
                return Some(CommandLineSignal::Enter { command, args });
            },
            _ => {},
        }
        None
    }

    /// The terminal column at which the cursor is drawn: the prompt's length
    /// plus the cursor position, truncated to 16 bits.
    pub fn cursor_column(&self) -> (col: u16)
        requires
            self.wf(),
        ensures
            col == ((self.prompt_chars().len() + self.ptr()) % 0x10000),
    {
        let n = self.prompt.as_str().unicode_len();
        let total = (n as u128) + (self.pointer as u128);
        (total % 0x10000) as u16
    }
}

/// `n` spaces.
pub open spec fn spaces(n: nat) -> Seq<char> {
    Seq::new(n, |i: int| ' ')
}

/// The commands with their descriptions and usage lines.
pub open spec fn command_info() -> Seq<(Seq<char>, Seq<char>, Seq<char>)> {
    seq![
        ("clear"@, "Clear terminal screen"@, "usage: clear"@),
        ("history"@, "Print command history"@, "usage: history"@),
        ("hash"@, "Compute hash of <data>"@, "usage: hash <data>"@),
    ]
}

/// A line of the command list: four spaces, the name padded with spaces to
/// twelve characters (not cut when longer), and the description.
pub open spec fn help_line_spec(name: Seq<char>, description: Seq<char>) -> Seq<char> {
    let pad = if name.len() < 12 { 12 - name.len() } else { 0 };
    spaces(4) + name + spaces(pad as nat) + description
}

/// The usage line of the command named `args`, if there is one.
pub open spec fn usage_spec(args: Seq<char>) -> Option<Seq<char>> {
    if args == command_info()[0].0 {
        Some(command_info()[0].2)
    } else if args == command_info()[1].0 {
        Some(command_info()[1].2)
    } else if args == command_info()[2].0 {
        Some(command_info()[2].2)
    } else {
        None
    }
}

/// The lines joined with `sep` between each two.
pub open spec fn join_spec(lines: Seq<Seq<char>>, sep: Seq<char>) -> Seq<char>
    decreases lines.len(),
{
    if lines.len() == 0 {
        Seq::empty()
    } else if lines.len() == 1 {
        lines[0]
    } else {
        join_spec(lines.drop_last(), sep) + sep + lines.last()
    }
}

fn push_spaces(s: &mut String, n: usize)
    ensures
        final(s)@ == old(s)@ + spaces(n as nat),
{
    let mut i: usize = 0;
    while i < n
        invariant
            i <= n,
            s@ == old(s)@ + spaces(i as nat),
        decreases n - i,
    {
        push_char(s, ' ');
        i = i + 1;
        assert(s@ =~= old(s)@ + spaces(i as nat));
    }
}

/// A line of the command list for the command `name`.
pub fn help_line(name: &str, description: &str) -> (line: String)
    ensures
        line@ == help_line_spec(name@, description@),
{
    let mut line = String::new();
    push_spaces(&mut line, 4);
    line.append(name);
    let n = name.unicode_len();
    let pad = if n < 12 {
        12 - n
    } else {
        0
    };
    push_spaces(&mut line, pad);
    line.append(description);
    assert(line@ =~= help_line_spec(name@, description@));
    line
}

/// The lines of the command list, one per command, in order.
pub fn help_lines() -> (lines: Vec<String>)
    ensures
        lines@.len() == command_info().len(),
        forall|i: int| 0 <= i < lines@.len() ==> #[trigger] lines@[i]@ == help_line_spec(command_info()[i].0, command_info()[i].1),
{
    let mut lines: Vec<String> = Vec::new();
    lines.push(help_line("clear", "Clear terminal screen"));
    lines.push(help_line("history", "Print command history"));
    lines.push(help_line("hash", "Compute hash of <data>"));
    lines
}

/// The usage line of the command named `args`, if there is one.
pub fn usage(args: &str) -> (u: Option<&'static str>)
    ensures
        match u {
            Some(line) => usage_spec(args@) == Some(line@),
            None => usage_spec(args@) is None,
        },
{
    if str_equal(args, "clear") {
        Some("usage: clear")
    } else if str_equal(args, "history") {
        Some("usage: history")
    } else if str_equal(args, "hash") {
        Some("usage: hash <data>")
    } else {
        None
    }
}

/// How a piece of output text is shown.
#[derive(Clone, Copy, Debug, Eq, Hash, PartialEq)]
pub enum Emphasis {
    /// Plain text.
    Plain,
    /// Bold text.
    Bold,
    /// Italic text.
    Italic,
}

/// A piece of output: text and how it is shown.
#[derive(Clone, Debug, Eq, Hash, PartialEq)]
pub struct Piece {
    pub emphasis: Emphasis,
    pub text: String,
}

/// The pieces as pairs of emphasis and characters.
pub open spec fn pieces_view(p: Seq<Piece>) -> Seq<(Emphasis, Seq<char>)> {
    p.map_values(|x: Piece| (x.emphasis, x.text@))
}

/// The list of commands under its heading: two newlines, `Commands:`, each
/// command's line ended by a newline, and a closing newline.
pub open spec fn command_list_spec() -> Seq<char> {
    newlines_spec(2) + "Commands:"@ + NEWLINE_STR@
        + help_line_spec(command_info()[0].0, command_info()[0].1) + NEWLINE_STR@
        + help_line_spec(command_info()[1].0, command_info()[1].1) + NEWLINE_STR@
        + help_line_spec(command_info()[2].0, command_info()[2].1) + NEWLINE_STR@
        + NEWLINE_STR@
}

/// What `help` writes for the arguments `args`. With none: a newline, `qbar`
/// in bold, ` | `, `the rational proof assistant` in italics, and the command
/// list. With the name of a command: its usage line and two newlines. With
/// anything else: the report that the command was not found and two
/// newlines.
pub open spec fn help_spec(args: Seq<char>) -> Seq<(Emphasis, Seq<char>)> {
    if args.len() == 0 {
        seq![
            (Emphasis::Plain, NEWLINE_STR@),
            (Emphasis::Bold, "qbar"@),
            (Emphasis::Plain, " | "@),
            (Emphasis::Italic, "the rational proof assistant"@),
            (Emphasis::Plain, command_list_spec()),
        ]
    } else {
        match usage_spec(args) {
            Some(u) => seq![(Emphasis::Plain, u + newlines_spec(2))],
            None => seq![(Emphasis::Plain, "[ERROR] command not found: "@ + args + NEWLINE_STR@ + NEWLINE_STR@)],
        }
    }
}

fn piece(emphasis: Emphasis, text: &str) -> (p: Piece)
    ensures
        p.emphasis == emphasis,
        p.text@ == text@,
{
    Piece { emphasis, text: to_string(text) }
}

/// The output of the `help` command for the arguments `args`, in order.
pub fn help_pieces(args: &str) -> (p: Vec<Piece>)
    ensures
        pieces_view(p@) == help_spec(args@),
{
    let mut out: Vec<Piece> = Vec::new();
    if args.unicode_len() == 0 {
        out.push(piece(Emphasis::Plain, NEWLINE_STR));
        out.push(piece(Emphasis::Bold, "qbar"));
        out.push(piece(Emphasis::Plain, " | "));
        out.push(piece(Emphasis::Italic, "the rational proof assistant"));
        let lines = help_lines();
        let mut list = newlines_text(2);
        list.append("Commands:");
        list.append(NEWLINE_STR);
        list.append(lines[0].as_str());
        list.append(NEWLINE_STR);
        list.append(lines[1].as_str());
        list.append(NEWLINE_STR);
        list.append(lines[2].as_str());
        list.append(NEWLINE_STR);
        list.append(NEWLINE_STR);
        assert(list@ =~= command_list_spec());
        out.push(Piece { emphasis: Emphasis::Plain, text: list });
    } else {
        match usage(args) {
            Some(u) => {
                let mut t = to_string(u);
                let nl = newlines_text(2);
                t.append(nl.as_str());
                out.push(Piece { emphasis: Emphasis::Plain, text: t });
            },
            None => {
                let mut t = not_found_text(args);
                t.append(NEWLINE_STR);
                t.append(NEWLINE_STR);
                out.push(Piece { emphasis: Emphasis::Plain, text: t });
            },
        }
    }
    assert(pieces_view(out@) =~= help_spec(args@));
    out
}

/// The report of a missing command.
pub fn missing_text(command: &str, args: &str) -> (t: String)
    ensures
        t@ == "[ERROR] missing command: "@ + command@ + " "@ + args@,
{
    let mut t = to_string("[ERROR] missing command: ");
    t.append(command);
    t.append(" ");
    t.append(args);
    t
}

/// The report of a help request for an unknown command.
pub fn not_found_text(args: &str) -> (t: String)
    ensures
        t@ == "[ERROR] command not found: "@ + args@,
{
    let mut t = to_string("[ERROR] command not found: ");
    t.append(args);
    t
}

/// The history, one entry per line.
pub fn history_text(history: &[String]) -> (t: String)
    ensures
        t@ == join_spec(history@.map_values(|s: String| s@), NEWLINE_STR@),
{
    let ghost lines = history@.map_values(|s: String| s@);
    let mut t = String::new();
    let n = history.len();
    let mut i: usize = 0;
    while i < n
        invariant
            n == history@.len(),
            i <= n,
            lines == history@.map_values(|s: String| s@),
            t@ == join_spec(lines.subrange(0, i as int), NEWLINE_STR@),
        decreases n - i,
    {
        if i > 0 {
            t.append(NEWLINE_STR);
        }
        t.append(history[i].as_str());
        assert(lines.subrange(0, i + 1).drop_last() =~= lines.subrange(0, i as int));
        i = i + 1;
    }
    assert(lines.subrange(0, n as int) =~= lines);
    t
}

/// What the `clear` command writes when given the arguments `args`: its
/// usage line and two newlines if there are arguments; `None` when there are
/// none, and the screen is cleared instead.
pub fn clear_output(args: &str) -> (t: Option<String>)
    ensures
        t is None <==> args@.len() == 0,
        t matches Some(t) ==> t@ == "usage: clear"@ + newlines_spec(2),
{
    if args.unicode_len() == 0 {
        None
    } else {
        let mut t = to_string("usage: clear");
        let nl = newlines_text(2);
        t.append(nl.as_str());
        Some(t)
    }
}

/// What the `history` command writes for the saved entries `history` and
/// the arguments `args`: its usage line and two newlines if there are
/// arguments; otherwise nothing for an empty history, else the entries one
/// per line and two newlines.
pub open spec fn history_output_spec(history: Seq<Seq<char>>, args: Seq<char>) -> Seq<char> {
    if args.len() > 0 {
        "usage: history"@ + newlines_spec(2)
    } else if history.len() == 0 {
        Seq::empty()
    } else {
        join_spec(history, NEWLINE_STR@) + newlines_spec(2)
    }
}

/// What the `history` command writes.
pub fn history_output(history: &[String], args: &str) -> (t: String)
    ensures
        t@ == history_output_spec(history@.map_values(|s: String| s@), args@),
{
    if args.unicode_len() > 0 {
        let mut t = to_string("usage: history");
        let nl = newlines_text(2);
        t.append(nl.as_str());
        t
    } else if history.len() == 0 {
        String::new()
    } else {
        let mut t = history_text(history);
        let nl = newlines_text(2);
        t.append(nl.as_str());
        t
    }
}

/// Inserting a character and then removing one undoes the insertion: the
/// removed character is the inserted one, and the line shown and the cursor
/// are as before.
pub proof fn law_insert_then_remove(pre: CommandLine, mid: CommandLine, post: CommandLine, c: char)
    requires
        pre.wf(),
        pre.after_insert(mid, c),
        mid.after_remove(post),
    ensures
        mid.removed_char() == Some(c),
        post.cur() == pre.cur(),
        post.ptr() == pre.ptr(),
        post.idx() == post.last(),
        post.hist() == pre.hist().update(pre.last(), pre.cur()),
        post.prompt_chars() == pre.prompt_chars(),
{
    let s = pre.cur();
    let k = pre.insert_pos().unwrap();
    let t = insert_at(s, k, c);
    lemma_char_pos_bounds(s, pre.ptr());
    assert(mid.cur() == t);
    assert(t.subrange(0, k) =~= s.subrange(0, k));
    lemma_char_pos_prefix(s, pre.ptr(), t);
    assert(mid.remove_pos() == Some(k));
    assert(t[k] == c);
    assert(remove_at(t, k) =~= s);
}

/// Moving up and then down returns to the entry shown before, with the
/// cursor at the end of that entry, whenever there was an entry above.
pub proof fn law_up_then_down(pre: CommandLine, mid: CommandLine, post: CommandLine)
    requires
        pre.wf(),
        pre.idx() > 0,
        pre.after_up(mid),
        mid.after_down(post),
    ensures
        post.idx() == pre.idx(),
        post.hist() == pre.hist(),
        post.ptr() == pre.cur().len(),
{
}

/// Moving left and then right returns the cursor to where it was, whenever
/// it was not at the start of the line.
pub proof fn law_left_then_right(pre: CommandLine, mid: CommandLine, post: CommandLine)
    requires
        pre.wf(),
        pre.ptr() > 0,
        pre.after_left(mid),
        mid.after_right(post),
    ensures
        post.ptr() == pre.ptr(),
        post.idx() == pre.idx(),
        post.hist() == pre.hist(),
{
}

/// Saving a non-empty line leaves the empty edited line shown with the
/// cursor at 0, and the saved line is the most recent saved entry.
pub proof fn law_save_leaves_empty_line(pre: CommandLine, post: CommandLine)
    requires
        pre.wf(),
        pre.cur().len() > 0,
        pre.after_save(post),
    ensures
        post.wf(),
        post.idx() == post.last(),
        post.cur() == Seq::<char>::empty(),
        post.ptr() == 0,
        post.hist().len() >= 2,
        post.hist()[post.last() - 1] == pre.cur(),
{
}

/// The command of a parsed line holds no whitespace, and an empty command
/// comes with empty arguments; the arguments neither start nor end with
/// whitespace.
pub proof fn law_parse_buffer_shape(s: Seq<char>)
    ensures
        forall|i: int| 0 <= i < parse_buffer_spec(s).0.len() ==> !is_ws(#[trigger] parse_buffer_spec(s).0[i]),
        parse_buffer_spec(s).0.len() == 0 ==> parse_buffer_spec(s).1.len() == 0,
        parse_buffer_spec(s).1.len() > 0 ==> !is_ws(parse_buffer_spec(s).1[0]),
        parse_buffer_spec(s).1.len() > 0 ==> !is_ws(parse_buffer_spec(s).1.last()),
{
    let t = trim_spec(s);
    lemma_trim(s);
    lemma_find_ws_bounds(t, 0);
    let w = find_ws(t, 0);
    if w < t.len() {
        lemma_trim(t.subrange(w + 1, t.len() as int));
    }
}

} // verus!
