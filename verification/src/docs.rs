//! The documentation site's demo page: a screen of entered commands.

use crate::text::{is_ws, lemma_skip_ws_bounds, lemma_trim_padded, str_equal, trim, trim_spec};
use vstd::prelude::*;
use vstd::string::*;

verus! {

/// A message to the demo page.
pub enum Msg {
    /// The command line's text changed.
    Update(String),
    /// Clear the screen.
    Clear,
    /// Previous history entry (not available yet).
    Up,
    /// Next history entry (not available yet).
    Down,
    /// Run the command line.
    Run,
    /// Nothing (a key other than enter).
    Idle,
}

/// The demo page's state: the screen entries and the command line's text.
pub struct State {
    entries: Vec<String>,
    value: String,
}

impl State {
    /// The screen entries.
    pub closed spec fn entries_view(&self) -> Seq<Seq<char>> {
        self.entries@.map_values(|s: String| s@)
    }

    /// The command line's text.
    pub closed spec fn value_view(&self) -> Seq<char> {
        self.value@
    }

    /// The state of a fresh page.
    pub fn new() -> (s: Self)
        ensures
            s.entries_view() == Seq::<Seq<char>>::empty(),
            s.value_view() == Seq::<char>::empty(),
    {
        let s = State { entries: Vec::new(), value: String::new() };
        assert(s.entries_view() =~= Seq::<Seq<char>>::empty());
        s
    }

    /// The screen entries.
    pub fn entries(&self) -> (e: &Vec<String>)
        ensures
            e@.map_values(|s: String| s@) == self.entries_view(),
    {
        &self.entries
    }

    /// The command line's text.
    pub fn value(&self) -> (v: &str)
        ensures
            v@ == self.value_view(),
    {
        self.value.as_str()
    }

    /// The entries after running the command line `value`: a blank line
    /// changes nothing, `clear` empties the screen, and any other line is
    /// added to it.
    pub open spec fn run_entries(entries: Seq<Seq<char>>, value: Seq<char>) -> Seq<Seq<char>> {
        let cmd = trim_spec(value);
        if cmd.len() == 0 {
            entries
        } else if cmd == "clear"@ {
            Seq::empty()
        } else {
            entries.push(value)
        }
    }

    /// Running a line chooses its command by the line without the
    /// whitespace around it: `clear` with any whitespace before and after
    /// empties the screen, and any other command is added as the whole line.
    pub proof fn law_run_padded_command(entries: Seq<Seq<char>>, p: Seq<char>, c: Seq<char>, q: Seq<char>)
        requires
            forall|k: int| 0 <= k < p.len() ==> is_ws(#[trigger] p[k]),
            forall|k: int| 0 <= k < q.len() ==> is_ws(#[trigger] q[k]),
            c.len() > 0,
            !is_ws(c[0]),
            !is_ws(c.last()),
        ensures
            c == "clear"@ ==> State::run_entries(entries, p + c + q) == Seq::<Seq<char>>::empty(),
            c != "clear"@ ==> State::run_entries(entries, p + c + q) == entries.push(p + c + q),
    {
        lemma_trim_padded(p, c, q);
    }

    /// A line of nothing but whitespace changes nothing.
    pub proof fn law_run_blank(entries: Seq<Seq<char>>, v: Seq<char>)
        requires
            forall|k: int| 0 <= k < v.len() ==> is_ws(#[trigger] v[k]),
        ensures
            State::run_entries(entries, v) == entries,
    {
        lemma_skip_ws_bounds(v, 0);
        assert(trim_spec(v) =~= Seq::<char>::empty());
    }

    /// Handle a message; the page is always redrawn. Running `clear` empties
    /// the screen; running any other non-blank line adds it to the screen.
    pub fn update(&mut self, msg: Msg) -> (render: bool)
        requires
            !(msg is Up || msg is Down),
        ensures
            render,
            match msg {
                Msg::Update(text) => {
                    &&& final(self).value_view() == text@
                    &&& final(self).entries_view() == old(self).entries_view()
                },
                Msg::Clear => {
                    &&& final(self).entries_view() == Seq::<Seq<char>>::empty()
                    &&& final(self).value_view() == old(self).value_view()
                },
                Msg::Run => {
                    &&& final(self).value_view() == Seq::<char>::empty()
                    &&& final(self).entries_view() == State::run_entries(
                        old(self).entries_view(),
                        old(self).value_view(),
                    )
                },
                _ => {
                    &&& final(self).entries_view() == old(self).entries_view()
                    &&& final(self).value_view() == old(self).value_view()
                },
            },
    {
        match msg {
            Msg::Update(text) => {
                self.value = text;
            },
            Msg::Clear => {
                self.entries = Vec::new();
                assert(self.entries_view() =~= Seq::<Seq<char>>::empty());
            },
            Msg::Run => {
                let cmd = trim(self.value.as_str());
                if cmd.unicode_len() != 0 {
                    if str_equal(cmd, "clear") {
                        self.entries = Vec::new();
                        assert(self.entries_view() =~= Seq::<Seq<char>>::empty());
                    } else {
                        let ghost e0 = self.entries_view();
                        let line = self.value.clone();
                        self.entries.push(line);
                        assert(self.entries_view() =~= e0.push(old(self).value_view()));
                    }
                }
                self.value = String::new();
            },
            _ => {},
        }
        true
    }
}

} // verus!
