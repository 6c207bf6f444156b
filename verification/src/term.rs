//! Terminal text and the yes/no prompt's decisions.

use crate::command::{KeyCode, KeyEvent};
use crate::text::{push_char, to_string};
use vstd::prelude::*;
use vstd::string::*;

verus! {

/// Canonical New Line String
pub const NEWLINE_STR: &'static str = "\r\n";

/// What `newlines` writes for `count` newlines: `count - 1` line feeds and
/// then one canonical newline; nothing for a count of 0.
pub open spec fn newlines_spec(count: nat) -> Seq<char> {
    if count > 0 {
        Seq::new((count - 1) as nat, |i: int| '\n') + seq!['\r', '\n']
    } else {
        Seq::empty()
    }
}

/// The text written to end `count` lines.
pub fn newlines_text(count: usize) -> (s: String)
    ensures
        s@ == newlines_spec(count as nat),
{
    let mut s = String::new();
    if count > 0 {
        let mut i: usize = 0;
        while i < count - 1
            invariant
                count > 0,
                i <= count - 1,
                s@ == Seq::new(i as nat, |j: int| '\n'),
            decreases count - 1 - i,
        {
            push_char(&mut s, '\n');
            i = i + 1;
            assert(s@ =~= Seq::new(i as nat, |j: int| '\n'));
        }
        push_char(&mut s, '\r');
        push_char(&mut s, '\n');
        assert(s@ =~= newlines_spec(count as nat));
    } else {
        assert(s@ =~= newlines_spec(count as nat));
    }
    s
}

/// State of a yes/no prompt.
#[derive(Clone, Copy, Debug, Eq, Hash, Ord, PartialEq, PartialOrd)]
pub enum YNPromptState {
    /// Positive state
    Yes,
    /// Negative state
    No,
    /// Prompt exit state
    ControlC,
    /// Shell exit state
    ControlD,
}

impl From<bool> for YNPromptState {
    fn from(b: bool) -> (s: Self) {
        if b {
            YNPromptState::Yes
        } else {
            YNPromptState::No
        }
    }
}

impl vstd::std_specs::convert::FromSpecImpl<bool> for YNPromptState {
    open spec fn obeys_from_spec() -> bool {
        true
    }

    open spec fn from_spec(b: bool) -> YNPromptState {
        if b {
            YNPromptState::Yes
        } else {
            YNPromptState::No
        }
    }
}

/// ASCII lowercase of a character: `A`..=`Z` become `a`..=`z`.
pub open spec fn ascii_lower(c: char) -> char {
    if 'A' <= c <= 'Z' {
        ((c as u32) + 32) as char
    } else {
        c
    }
}

/// The ASCII lowercase of a sequence of characters.
pub open spec fn ascii_lower_seq(s: Seq<char>) -> Seq<char> {
    s.map_values(|c: char| ascii_lower(c))
}

fn lower_char(c: char) -> (r: char)
    ensures
        r == ascii_lower(c),
{
    if 'A' <= c && c <= 'Z' {
        ((c as u8) + 32) as char
    } else {
        c
    }
}

/// Whether the ASCII lowercase of `s` is the same as `t`.
fn lower_equals(s: &str, t: &str) -> (b: bool)
    ensures
        b == (ascii_lower_seq(s@) == t@),
{
    let n = s.unicode_len();
    if n != t.unicode_len() {
        assert(ascii_lower_seq(s@).len() != t@.len());
        return false;
    }
    let mut i: usize = 0;
    while i < n
        invariant
            n == s@.len(),
            n == t@.len(),
            i <= n,
            forall|k: int| 0 <= k < i ==> ascii_lower(s@[k]) == t@[k],
        decreases n - i,
    {
        if lower_char(s.get_char(i)) != t.get_char(i) {
            assert(ascii_lower_seq(s@)[i as int] != t@[i as int]);
            return false;
        }
        i = i + 1;
    }
    assert(ascii_lower_seq(s@) =~= t@);
    true
}

/// `s` without its last character, if it has one.
pub open spec fn without_last(s: Seq<char>) -> Seq<char> {
    if s.len() > 0 {
        s.drop_last()
    } else {
        s
    }
}

/// Removes the last character of `buffer`, if any.
fn drop_last_char(buffer: &mut String)
    ensures
        final(buffer)@ == without_last(old(buffer)@),
{
    let n = buffer.as_str().unicode_len();
    if n > 0 {
        let shorter = to_string(buffer.as_str().substring_char(0, n - 1));
        assert(shorter@ =~= old(buffer)@.drop_last());
        *buffer = shorter;
    }
}

/// The answer a confirmed buffer gives: "y" or "yes" (in any ASCII case) is
/// yes, "n" or "no" is no, anything else is no answer.
pub open spec fn answer_spec(s: Seq<char>) -> Option<YNPromptState> {
    let l = ascii_lower_seq(s);
    if l == seq!['y'] || l == seq!['y', 'e', 's'] {
        Some(YNPromptState::Yes)
    } else if l == seq!['n'] || l == seq!['n', 'o'] {
        Some(YNPromptState::No)
    } else {
        None
    }
}

/// The yes/no prompt's response to one key press, with `buffer` the text typed
/// so far: backspace drops the last character; `^C` and `^D` end the prompt;
/// another character is typed; enter on an empty buffer gives the default,
/// on an answer gives that answer, and otherwise empties the buffer.
pub fn yn_prompt_step(buffer: &mut String, key: KeyEvent, default: bool) -> (r: Option<YNPromptState>)
    ensures
        key.code is Backspace ==> r is None && final(buffer)@ == without_last(old(buffer)@),
        key.code matches KeyCode::Char(c) ==> if key.modifiers.control && !key.modifiers.shift
            && !key.modifiers.alt {
            &&& final(buffer)@ == old(buffer)@
            &&& r == (if c == 'c' {
                Some(YNPromptState::ControlC)
            } else if c == 'd' {
                Some(YNPromptState::ControlD)
            } else {
                None
            })
        } else {
            r is None && final(buffer)@ == old(buffer)@.push(c)
        },
        key.code is Enter ==> if old(buffer)@.len() == 0 {
            &&& final(buffer)@ == old(buffer)@
            &&& r == Some(
                if default {
                    YNPromptState::Yes
                } else {
                    YNPromptState::No
                },
            )
        } else {
            &&& r == answer_spec(old(buffer)@)
            &&& final(buffer)@ == (if r is None {
                Seq::<char>::empty()
            } else {
                old(buffer)@
            })
        },
        !(key.code is Backspace || key.code is Char || key.code is Enter) ==> r is None
            && final(buffer)@ == old(buffer)@,
{
    match key.code {
        KeyCode::Backspace => {
            drop_last_char(buffer);
            None
        },
        KeyCode::Char(c) => {
            if key.modifiers.is_control_only() {
                if c == 'c' {
                    Some(YNPromptState::ControlC)
                } else if c == 'd' {
                    Some(YNPromptState::ControlD)
                } else {
                    None
                }
            } else {
                push_char(buffer, c);
                None
            }
        },
        KeyCode::Enter => {
            if buffer.as_str().unicode_len() == 0 {
                return Some(YNPromptState::from(default));
            }
            proof {
                reveal_strlit("y");
                reveal_strlit("yes");
                reveal_strlit("n");
                reveal_strlit("no");
                assert("y"@ =~= seq!['y']);
                assert("yes"@ =~= seq!['y', 'e', 's']);
                assert("n"@ =~= seq!['n']);
                assert("no"@ =~= seq!['n', 'o']);
            }
            let b = buffer.as_str();
            if lower_equals(b, "y") || lower_equals(b, "yes") {
                Some(YNPromptState::Yes)
            } else if lower_equals(b, "n") || lower_equals(b, "no") {
                Some(YNPromptState::No)
            } else {
                *buffer = String::new();
                None
            }
        },
        _ => None,
    }
}

/// The answer to a confirmed buffer depends only on its ASCII lowercase:
/// buffers that differ only in the case of ASCII letters give the same
/// answer.
pub proof fn law_answer_ignores_ascii_case(s: Seq<char>, t: Seq<char>)
    requires
        s.len() == t.len(),
        forall|i: int| 0 <= i < s.len() ==> #[trigger] ascii_lower(s[i]) == ascii_lower(t[i]),
    ensures
        answer_spec(s) == answer_spec(t),
{
    assert(ascii_lower_seq(s) =~= ascii_lower_seq(t));
}

/// `y` and `yes`, in any case, answer yes; `n` and `no`, in any case, answer
/// no; every other buffer is no answer.
pub proof fn law_answers(s: Seq<char>)
    ensures
        (s.len() == 1 && (s[0] == 'y' || s[0] == 'Y')) ==> answer_spec(s) == Some(YNPromptState::Yes),
        (s.len() == 3 && (s[0] == 'y' || s[0] == 'Y') && (s[1] == 'e' || s[1] == 'E') && (s[2]
            == 's' || s[2] == 'S')) ==> answer_spec(s) == Some(YNPromptState::Yes),
        (s.len() == 1 && (s[0] == 'n' || s[0] == 'N')) ==> answer_spec(s) == Some(YNPromptState::No),
        (s.len() == 2 && (s[0] == 'n' || s[0] == 'N') && (s[1] == 'o' || s[1] == 'O'))
            ==> answer_spec(s) == Some(YNPromptState::No),
        answer_spec(s) == Some(YNPromptState::Yes) ==> (s.len() == 1 || s.len() == 3) && (s[0]
            == 'y' || s[0] == 'Y'),
        answer_spec(s) == Some(YNPromptState::No) ==> (s.len() == 1 || s.len() == 2) && (s[0]
            == 'n' || s[0] == 'N'),
{
    let l = ascii_lower_seq(s);
    if s.len() == 1 {
        assert(l =~= seq![ascii_lower(s[0])]);
    } else if s.len() == 2 {
        assert(l =~= seq![ascii_lower(s[0]), ascii_lower(s[1])]);
    } else if s.len() == 3 {
        assert(l =~= seq![ascii_lower(s[0]), ascii_lower(s[1]), ascii_lower(s[2])]);
    }
    if answer_spec(s) is Some {
        assert(l.len() == s.len());
        assert(l[0] == ascii_lower(s[0]));
    }
}

} // verus!
