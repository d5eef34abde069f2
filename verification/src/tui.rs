//! The interactive terminal's state and decisions: the input line with its
//! character cursor, the conversation log and its scrolling, the modal
//! picker, the key bindings, the slash commands, and how streamed events
//! become conversation lines. Drawing and terminal I/O are the host's.

use vstd::prelude::*;

use crate::text::{
    chars_of, join, owned, push_str, string_of, take_chars, trim, trim_chars, trim_str, views,
};

verus! {

/// Maximum number of options shown at once inside the picker.
pub const PICKER_VISIBLE: usize = 12;

/// The number of options the picker shows.
pub open spec fn visible_count(len: int) -> int {
    if len < PICKER_VISIBLE as int {
        len
    } else {
        PICKER_VISIBLE as int
    }
}

/// A modal, keyboard-navigable option list (e.g. the `/agent` switcher).
#[derive(Debug, Clone)]
pub struct Picker {
    pub title: String,
    pub items: Vec<String>,
    pub selected: usize,
    pub scroll: usize,
}

impl Picker {
    /// The highlight is on an item (or on the first row of an empty list)
    /// and inside the visible window, which lies within the list.
    pub open spec fn wf(&self) -> bool {
        &&& (self.selected < self.items@.len() || (self.items@.len() == 0 && self.selected == 0))
        &&& self.scroll <= self.selected
        &&& self.selected < self.scroll + PICKER_VISIBLE
        &&& self.scroll + visible_count(self.items@.len() as int) <= self.items@.len()
    }

    /// The window after moving the highlight to `sel`: scrolled up to it when
    /// above, or down just enough when below.
    pub open spec fn clamped_scroll(scroll: int, sel: int) -> int {
        if sel < scroll {
            sel
        } else if sel >= scroll + PICKER_VISIBLE {
            sel + 1 - PICKER_VISIBLE
        } else {
            scroll
        }
    }

    /// Open a picker with the highlight on `current` when it is one of the
    /// items (else on the first).
    pub fn open(title: &str, items: Vec<String>, current: Option<&str>) -> (r: Self)
        ensures
            r.wf(),
            r.title@ == title@,
            r.items@ == items@,
            match current {
                Some(c) => if exists|i: int| 0 <= i < items@.len() && (#[trigger] items@[i])@ == c@ {
                    r.items@[r.selected as int]@ == c@ && forall|j: int|
                        0 <= j < r.selected ==> (#[trigger] items@[j])@ != c@
                } else {
                    r.selected == 0
                },
                None => r.selected == 0,
            },
    {
        let mut selected: usize = 0;
        match current {
            Some(c) => {
                let mut i: usize = 0;
                let mut found = false;
                while i < items.len() && !found
                    invariant
                        i <= items.len(),
                        found ==> i < items.len() && items@[i as int]@ == c@,
                        forall|j: int| 0 <= j < i ==> (#[trigger] items@[j])@ != c@,
                    decreases (items.len() - i) as int + if found { 0int } else { 1int },
                {
                    if crate::text::str_eq(items[i].as_str(), c) {
                        found = true;
                    } else {
                        i = i + 1;
                    }
                }
                if found {
                    selected = i;
                } else {
                    assert(!exists|x: int| 0 <= x < items@.len() && (#[trigger] items@[x])@ == c@);
                }
            },
            None => {},
        }
        let mut p = Picker { title: owned(title), items, selected, scroll: 0 };
        p.clamp_scroll();
        p
    }

    /// Scroll so that the highlight is inside the visible window.
    pub fn clamp_scroll(&mut self)
        requires
            old(self).selected < old(self).items@.len() || (old(self).items@.len() == 0
                && old(self).selected == 0),
            old(self).scroll + visible_count(old(self).items@.len() as int) <= old(self).items@.len(),
        ensures
            final(self).wf(),
            final(self).scroll == Self::clamped_scroll(old(self).scroll as int, old(self).selected as int),
            final(self).selected == old(self).selected,
            final(self).items == old(self).items,
            final(self).title == old(self).title,
    {
        if self.selected < self.scroll {
            self.scroll = self.selected;
        } else if self.selected - self.scroll >= PICKER_VISIBLE {
            let len = self.items.len();
            assert(self.selected < len);
            self.scroll = self.selected + 1 - PICKER_VISIBLE;
        }
    }

    /// Move the highlight one row up, keeping it inside the visible window.
    pub fn prev(&mut self)
        requires
            old(self).wf(),
        ensures
            final(self).wf(),
            final(self).selected == if old(self).selected > 0 {
                old(self).selected - 1
            } else {
                old(self).selected as int
            },
            final(self).items == old(self).items,
    {
        if self.selected > 0 {
            self.selected = self.selected - 1;
            self.clamp_scroll();
        }
    }

    /// Move the highlight one row down, keeping it inside the visible window.
    pub fn next(&mut self)
        requires
            old(self).wf(),
        ensures
            final(self).wf(),
            final(self).selected == if old(self).selected + 1 < old(self).items@.len() {
                old(self).selected + 1
            } else {
                old(self).selected as int
            },
            final(self).items == old(self).items,
    {
        if self.items.len() > 0 && self.selected < self.items.len() - 1 {
            self.selected = self.selected + 1;
            self.clamp_scroll();
        }
    }

    /// Move the highlight a page up (to the first item at most).
    pub fn page_up(&mut self)
        requires
            old(self).wf(),
        ensures
            final(self).wf(),
            final(self).selected == if old(self).selected >= PICKER_VISIBLE {
                old(self).selected - PICKER_VISIBLE
            } else {
                0
            },
            final(self).items == old(self).items,
    {
        self.selected = if self.selected >= PICKER_VISIBLE {
            self.selected - PICKER_VISIBLE
        } else {
            0
        };
        self.clamp_scroll();
    }

    /// Move the highlight a page down (to the last item at most).
    pub fn page_down(&mut self)
        requires
            old(self).wf(),
            old(self).items@.len() > 0,
        ensures
            final(self).wf(),
            final(self).selected == if old(self).selected + PICKER_VISIBLE < old(self).items@.len() {
                old(self).selected + PICKER_VISIBLE
            } else {
                old(self).items@.len() - 1
            },
            final(self).items == old(self).items,
    {
        let last = self.items.len() - 1;
        self.selected = if last - self.selected > PICKER_VISIBLE {
            self.selected + PICKER_VISIBLE
        } else {
            last
        };
        self.clamp_scroll();
    }

    /// The highlighted item, if any.
    pub fn selected(&self) -> (r: Option<String>)
        ensures
            self.selected < self.items@.len() ==> (r matches Some(s) && s@
                == self.items@[self.selected as int]@),
            self.selected >= self.items@.len() ==> r is None,
    {
        if self.selected < self.items.len() {
            Some(self.items[self.selected].clone())
        } else {
            None
        }
    }

    /// The items in the visible window, each with whether it is highlighted.
    pub fn window(&self) -> (r: Vec<(String, bool)>)
        requires
            self.wf(),
        ensures
            r@.len() == visible_count(self.items@.len() as int),
            forall|k: int|
                0 <= k < r@.len() ==> (#[trigger] r@[k]).0@ == self.items@[self.scroll + k]@
                    && r@[k].1 == (self.scroll + k == self.selected),
    {
        let n = if self.items.len() < PICKER_VISIBLE {
            self.items.len()
        } else {
            PICKER_VISIBLE
        };
        let mut r: Vec<(String, bool)> = Vec::new();
        let mut k: usize = 0;
        while k < n
            invariant
                k <= n,
                n == visible_count(self.items@.len() as int),
                self.wf(),
                r@.len() == k,
                forall|x: int|
                    0 <= x < k ==> (#[trigger] r@[x]).0@ == self.items@[self.scroll + x]@ && r@[x].1
                        == (self.scroll + x == self.selected),
            decreases n - k,
        {
            let len = self.items.len();
            assert(self.scroll + k < len);
            let i = self.scroll + k;
            r.push((self.items[i].clone(), i == self.selected));
            k = k + 1;
        }
        r
    }
}

/// The kind of a conversation line.
#[derive(Debug, Clone, Copy, PartialEq, Eq, Structural)]
pub enum Kind {
    User,
    Assistant,
    Thinking,
    Tool,
    Info,
    Error,
}

/// One line of the conversation.
#[derive(Debug, Clone)]
pub struct Line {
    pub kind: Kind,
    pub text: String,
}

/// The terminal's state. `cursor` is a character index into `input`
/// (0 = before the first character).
pub struct UiState {
    pub lines: Vec<Line>,
    pub input: String,
    pub cursor: usize,
    pub status: String,
    /// The picker currently open, if any.
    pub menu: Option<Picker>,
    /// Wrapped rows hidden above the conversation view; when `conv_pinned`
    /// the view follows the newest content. `conv_max` / `conv_inner` are
    /// refreshed on every frame.
    pub conv_scroll: usize,
    pub conv_pinned: bool,
    pub conv_max: usize,
    pub conv_inner: usize,
    /// Set whenever the visible state changes, so that the host redraws only
    /// on demand.
    pub dirty: bool,
    /// Advances while a request is running (spinner animation).
    pub anim_tick: u64,
}

/// The status shown when no request is running.
pub const READY: &'static str = "ready";

/// The banner the conversation starts with.
pub const BANNER: &'static str = "FastClaw — /new /clear /session_list /agent /skill list /workdir /help /quit";

/// The UTF-8 length of the characters `s`.
pub open spec fn utf8_len(s: Seq<char>) -> nat {
    vstd::utf8::encode_utf8(s).len()
}

/// Whether `c` is a control character (general category Cc), as
/// `char::is_control` says.
pub open spec fn is_control(c: char) -> bool {
    (c as u32) < 0x20 || (0x7f <= (c as u32) && (c as u32) <= 0x9f)
}

/// The characters of `s` that are not control characters, in order.
pub open spec fn printable(s: Seq<char>) -> Seq<char>
    decreases s.len(),
{
    if s.len() == 0 {
        seq![]
    } else {
        printable(s.drop_last()) + if is_control(s.last()) {
            Seq::<char>::empty()
        } else {
            seq![s.last()]
        }
    }
}

proof fn lemma_printable_grows(s: Seq<char>, i: int, j: int)
    requires
        0 <= i <= j <= s.len(),
    ensures
        printable(s.take(i)).len() <= printable(s.take(j)).len(),
    decreases j - i,
{
    if i < j {
        lemma_printable_grows(s, i, j - 1);
        assert(s.take(j).drop_last() =~= s.take(j - 1));
    }
}

/// The input with `c` inserted at character position `k`.
pub open spec fn inserted(s: Seq<char>, k: int, c: char) -> Seq<char> {
    s.take(k) + seq![c] + s.skip(k)
}

/// The input with the character at position `k` removed.
pub open spec fn removed(s: Seq<char>, k: int) -> Seq<char> {
    s.take(k) + s.skip(k + 1)
}

/// Typing a character and then pressing backspace gives back the input as it
/// was: the character removed is the one just inserted, and the input is one
/// character longer in between.
pub proof fn law_backspace_undoes_insert(s: Seq<char>, k: int, c: char)
    requires
        0 <= k <= s.len(),
    ensures
        inserted(s, k, c).len() == s.len() + 1,
        removed(inserted(s, k, c), k) == s,
{
    assert(removed(inserted(s, k, c), k) =~= s);
}

impl UiState {
    /// A fresh state: the banner line, an empty input, ready, pinned to the
    /// newest content.
    pub fn new() -> (r: Self)
        ensures
            r.lines@.len() == 1,
            r.lines@[0].kind == Kind::Info,
            r.lines@[0].text@ == BANNER@,
            r.input@.len() == 0,
            r.cursor == 0,
            r.status@ == READY@,
            r.menu is None,
            r.conv_scroll == 0,
            r.conv_pinned,
            r.dirty,
            r.anim_tick == 0,
    {
        UiState {
            lines: vec![Line { kind: Kind::Info, text: owned(BANNER) }],
            input: String::new(),
            cursor: 0,
            status: owned(READY),
            menu: None,
            conv_scroll: 0,
            conv_pinned: true,
            conv_max: 0,
            conv_inner: 0,
            dirty: true,
            anim_tick: 0,
        }
    }

    /// Byte offset of the cursor in the input (character index to byte
    /// index; the input's length when the cursor is at or past its end).
    pub fn byte_index(&self) -> (r: usize)
        ensures
            r == utf8_len(self.input@.take(if self.cursor < self.input@.len() {
                self.cursor as int
            } else {
                self.input@.len() as int
            })) as usize,
    {
        let chars = chars_of(self.input.as_str());
        let k = if self.cursor < chars.len() {
            self.cursor
        } else {
            chars.len()
        };
        let head = string_of(&take_chars(&chars, k));
        head.as_str().len()
    }

    /// Total character count of the input.
    pub fn char_len(&self) -> (r: usize)
        ensures
            r == self.input@.len(),
    {
        chars_of(self.input.as_str()).len()
    }

    /// Insert `c` at the cursor and move the cursor past it.
    pub fn insert_char(&mut self, c: char)
        requires
            old(self).cursor < usize::MAX,
        ensures
            final(self).menu == old(self).menu,
            final(self).input@ == inserted(
                old(self).input@,
                if old(self).cursor < old(self).input@.len() {
                    old(self).cursor as int
                } else {
                    old(self).input@.len() as int
                },
                c,
            ),
            final(self).cursor == old(self).cursor + 1,
            final(self).dirty,
            final(self).lines == old(self).lines,
            final(self).status == old(self).status,
            final(self).conv_scroll == old(self).conv_scroll,
            final(self).conv_pinned == old(self).conv_pinned,
    {
        let chars = chars_of(self.input.as_str());
        let k = if self.cursor < chars.len() {
            self.cursor
        } else {
            chars.len()
        };
        let mut out = crate::text::slice_chars(&chars, 0, k);
        out.push(c);
        let rest = crate::text::slice_chars(&chars, k, chars.len());
        crate::text::extend_chars(&mut out, &rest);
        assert(out@ =~= inserted(chars@, k as int, c));
        self.input = string_of(&out);
        self.cursor = self.cursor + 1;
        self.dirty = true;
    }

    /// Delete the character before the cursor (backspace).
    pub fn backspace(&mut self)
        requires
            old(self).cursor <= old(self).input@.len(),
        ensures
            final(self).menu == old(self).menu,
            old(self).cursor > 0 ==> final(self).cursor == old(self).cursor - 1 && final(self).input@ == removed(old(self).input@, old(self).cursor - 1) && final(self).dirty,
            old(self).cursor == 0 ==> final(self).cursor == 0 && final(self).input
                == old(self).input && final(self).dirty == old(self).dirty,
            final(self).lines == old(self).lines,
    {
        if self.cursor > 0 {
            self.cursor = self.cursor - 1;
            self.remove_at_cursor();
            self.dirty = true;
        }
    }

    fn remove_at_cursor(&mut self)
        requires
            old(self).cursor < old(self).input@.len(),
        ensures
            final(self).menu == old(self).menu,
            final(self).input@ == removed(old(self).input@, old(self).cursor as int),
            final(self).cursor == old(self).cursor,
            final(self).dirty == old(self).dirty,
            final(self).lines == old(self).lines,
            final(self).status == old(self).status,
    {
        let chars = chars_of(self.input.as_str());
        let n = chars.len();
        assert(n == self.input@.len());
        let k = self.cursor;
        assert(k < n);
        let mut out = crate::text::slice_chars(&chars, 0, k);
        let rest = crate::text::slice_chars(&chars, k + 1, chars.len());
        crate::text::extend_chars(&mut out, &rest);
        assert(out@ =~= removed(chars@, k as int));
        self.input = string_of(&out);
    }

    /// Delete the character under the cursor (delete key).
    pub fn delete(&mut self)
        ensures
            final(self).menu == old(self).menu,
            old(self).cursor < old(self).input@.len() ==> final(self).input@ == removed(
                old(self).input@,
                old(self).cursor as int,
            ) && final(self).dirty,
            old(self).cursor >= old(self).input@.len() ==> final(self).input == old(self).input
                && final(self).dirty == old(self).dirty,
            final(self).cursor == old(self).cursor,
            final(self).lines == old(self).lines,
    {
        if self.cursor < self.char_len() {
            self.remove_at_cursor();
            self.dirty = true;
        }
    }

    /// Move the cursor one character left (not past the start).
    pub fn move_left(&mut self)
        ensures
            final(self).lines == old(self).lines,
            final(self).status == old(self).status,
            final(self).menu == old(self).menu,
            final(self).cursor == if old(self).cursor > 0 { old(self).cursor - 1 } else { 0 },
            final(self).input == old(self).input,
            final(self).dirty,
    {
        self.cursor = if self.cursor > 0 {
            self.cursor - 1
        } else {
            0
        };
        self.dirty = true;
    }

    /// Move the cursor one character right (not past the end).
    pub fn move_right(&mut self)
        ensures
            final(self).lines == old(self).lines,
            final(self).status == old(self).status,
            final(self).menu == old(self).menu,
            final(self).cursor == if old(self).cursor < old(self).input@.len() {
                old(self).cursor + 1
            } else {
                old(self).input@.len() as int
            },
            final(self).input == old(self).input,
            final(self).dirty,
    {
        let n = self.char_len();
        self.cursor = if self.cursor < n {
            self.cursor + 1
        } else {
            n
        };
        self.dirty = true;
    }

    /// Move the cursor to the start of the input.
    pub fn home(&mut self)
        ensures
            final(self).lines == old(self).lines,
            final(self).status == old(self).status,
            final(self).menu == old(self).menu,
            final(self).cursor == 0,
            final(self).input == old(self).input,
            final(self).dirty,
    {
        self.cursor = 0;
        self.dirty = true;
    }

    /// Move the cursor to the end of the input.
    pub fn end(&mut self)
        ensures
            final(self).lines == old(self).lines,
            final(self).status == old(self).status,
            final(self).menu == old(self).menu,
            final(self).cursor == old(self).input@.len(),
            final(self).input == old(self).input,
            final(self).dirty,
    {
        self.cursor = self.char_len();
        self.dirty = true;
    }

    /// Scroll the conversation up by `step` rows (towards older messages),
    /// unpinning it from the newest content.
    pub fn conv_scroll_up(&mut self, step: usize)
        ensures
            final(self).lines == old(self).lines,
            final(self).status == old(self).status,
            final(self).input == old(self).input,
            final(self).cursor == old(self).cursor,
            final(self).menu == old(self).menu,
            !final(self).conv_pinned,
            final(self).conv_scroll == if old(self).conv_scroll >= step {
                old(self).conv_scroll - step
            } else {
                0
            },
            final(self).dirty,
            final(self).conv_max == old(self).conv_max,
            final(self).input == old(self).input,
    {
        self.conv_pinned = false;
        self.conv_scroll = if self.conv_scroll >= step {
            self.conv_scroll - step
        } else {
            0
        };
        self.dirty = true;
    }

    /// Scroll the conversation down by `step` rows (towards newer messages);
    /// reaching the newest content pins the view again.
    pub fn conv_scroll_down(&mut self, step: usize)
        ensures
            final(self).lines == old(self).lines,
            final(self).status == old(self).status,
            final(self).input == old(self).input,
            final(self).cursor == old(self).cursor,
            final(self).menu == old(self).menu,
            final(self).conv_scroll == if (old(self).conv_scroll + step) < (old(self).conv_max as int) {
                old(self).conv_scroll + step
            } else {
                old(self).conv_max as int
            },
            final(self).conv_pinned == (final(self).conv_scroll >= old(self).conv_max),
            final(self).dirty,
            final(self).conv_max == old(self).conv_max,
            final(self).input == old(self).input,
    {
        self.conv_pinned = false;
        let target = if self.conv_scroll <= usize::MAX - step {
            self.conv_scroll + step
        } else {
            usize::MAX
        };
        self.conv_scroll = if target < self.conv_max {
            target
        } else {
            self.conv_max
        };
        if self.conv_scroll >= self.conv_max {
            self.conv_pinned = true;
        }
        self.dirty = true;
    }

    /// Jump to the top of the conversation (oldest messages).
    pub fn conv_scroll_top(&mut self)
        ensures
            final(self).lines == old(self).lines,
            final(self).status == old(self).status,
            final(self).input == old(self).input,
            final(self).cursor == old(self).cursor,
            final(self).menu == old(self).menu,
            !final(self).conv_pinned,
            final(self).conv_scroll == 0,
            final(self).dirty,
            final(self).input == old(self).input,
    {
        self.conv_pinned = false;
        self.conv_scroll = 0;
        self.dirty = true;
    }

    /// Pin the view to the newest content.
    pub fn conv_pin(&mut self)
        ensures
            final(self).lines == old(self).lines,
            final(self).status == old(self).status,
            final(self).input == old(self).input,
            final(self).cursor == old(self).cursor,
            final(self).menu == old(self).menu,
            final(self).conv_pinned,
            final(self).conv_scroll == old(self).conv_scroll,
            final(self).dirty,
            final(self).input == old(self).input,
    {
        self.conv_pinned = true;
        self.dirty = true;
    }

    /// Append a conversation line.
    pub fn push(&mut self, kind: Kind, text: String)
        ensures
            final(self).input == old(self).input,
            final(self).menu == old(self).menu,
            final(self).lines@ == old(self).lines@.push(Line { kind, text }),
            final(self).dirty,
            final(self).input == old(self).input,
            final(self).cursor == old(self).cursor,
            final(self).status == old(self).status,
    {
        self.lines.push(Line { kind, text });
        self.dirty = true;
    }

    /// Set the status text.
    pub fn set_status(&mut self, text: String)
        ensures
            final(self).input == old(self).input,
            final(self).cursor == old(self).cursor,
            final(self).menu == old(self).menu,
            final(self).status == text,
            final(self).dirty,
            final(self).lines == old(self).lines,
    {
        self.status = text;
        self.dirty = true;
    }
}

// ---------------------------------------------------------------------------
// Keys
// ---------------------------------------------------------------------------

/// A key press, as plain values (`ctrl` when the Control modifier is held).
#[derive(Debug, Clone, Copy, PartialEq, Eq, Structural)]
pub enum Key {
    Char { c: char, ctrl: bool },
    Backspace,
    Delete,
    Left,
    Right,
    Up,
    Down,
    Home,
    End,
    PageUp,
    PageDown,
    Enter,
    Esc,
    Other,
}

/// What the host must do after a key press.
#[derive(Debug, Clone)]
pub enum KeyOutcome {
    Nothing,
    /// Leave the terminal.
    Quit,
    /// Repaint the whole screen.
    ClearScreen,
    /// The user picked this agent in the picker.
    PickAgent { agent: String },
    /// The user pressed Enter on this input: run it as a slash command, and,
    /// when `chat`, send it as a message.
    Enter { text: String, chat: bool },
}

/// Whether the key is `ch` with Control held.
pub open spec fn is_ctrl(key: Key, ch: char) -> bool {
    key matches Key::Char { c, ctrl } && ctrl && c == ch
}

/// Whether the key is the plain character `ch`, or `ch` with Control when
/// Control+`ch` has no binding of its own.
pub open spec fn is_char(key: Key, ch: char) -> bool {
    key matches Key::Char { c, ctrl } && c == ch && !(ctrl && (c == 'c' || c == 'l'))
}

pub const STILL_GENERATING: &'static str = "Still generating… wait for it to finish";

pub const SLASH: &'static str = "/";

/// Whether Enter on `text` sends it as a chat message (non-blank and not a
/// slash command).
pub open spec fn is_chat(text: Seq<char>) -> bool {
    trim(text).len() > 0 && !crate::text::starts_with(text, SLASH@)
}

/// The highlight after moving one row up.
pub open spec fn up_one(sel: int) -> int {
    if sel > 0 { sel - 1 } else { sel }
}

/// The highlight after moving one row down in a list of `len` items.
pub open spec fn down_one(sel: int, len: int) -> int {
    if sel + 1 < len { sel + 1 } else { sel }
}

/// The highlight after moving a page up.
pub open spec fn page_up_from(sel: int) -> int {
    if sel >= PICKER_VISIBLE { sel - PICKER_VISIBLE } else { 0 }
}

/// The highlight after moving a page down in a non-empty list.
pub open spec fn page_down_from(sel: int, len: int) -> int {
    if sel + PICKER_VISIBLE < len { sel + PICKER_VISIBLE } else { len - 1 }
}

/// The rows a page scroll moves: the visible rows, at least one.
pub open spec fn page_rows(inner: usize) -> int {
    if inner < 1 { 1 } else { inner as int }
}

/// The conversation scroll after moving up by `step` rows.
pub open spec fn scrolled_up(scroll: int, step: int) -> int {
    if scroll >= step { scroll - step } else { 0 }
}

/// The conversation scroll after moving down by `step` rows, at most to
/// `max`.
pub open spec fn scrolled_down(scroll: int, step: int, max: int) -> int {
    if scroll + step < max { scroll + step } else { max }
}

/// What a key press does while the picker `m` is open (the input and the
/// conversation are untouched): Control+C quits, Control+L repaints, Up/`k`
/// and Down/`j` and the page keys move the highlight, Enter closes the
/// picker with the highlighted item (if any), Esc/`q` close it, anything
/// else does nothing.
pub open spec fn menu_effect(s: UiState, t: UiState, key: Key, r: KeyOutcome) -> bool {
    let m = s.menu->Some_0;
    &&& t.input == s.input
    &&& t.cursor == s.cursor
    &&& t.lines == s.lines
    &&& if is_ctrl(key, 'c') {
        r is Quit
    } else if is_ctrl(key, 'l') {
        r is ClearScreen && t.dirty
    } else if key == Key::Up || is_char(key, 'k') {
        r is Nothing && (t.menu matches Some(n) && n.items == m.items && n.selected == up_one(
            m.selected as int,
        ))
    } else if key == Key::Down || is_char(key, 'j') {
        r is Nothing && (t.menu matches Some(n) && n.items == m.items && n.selected == down_one(
            m.selected as int,
            m.items@.len() as int,
        ))
    } else if key == Key::PageUp {
        r is Nothing && (t.menu matches Some(n) && n.items == m.items && n.selected == page_up_from(
            m.selected as int,
        ))
    } else if key == Key::PageDown {
        r is Nothing && (t.menu matches Some(n) && n.items == m.items && (m.items@.len() > 0
            ==> n.selected == page_down_from(m.selected as int, m.items@.len() as int)))
    } else if key == Key::Enter {
        t.menu is None && t.dirty && match r {
            KeyOutcome::PickAgent { agent } => m.selected < m.items@.len() && agent@
                == m.items@[m.selected as int]@,
            KeyOutcome::Nothing => m.selected >= m.items@.len(),
            _ => false,
        }
    } else if key == Key::Esc || is_char(key, 'q') {
        t.menu is None && r is Nothing
    } else {
        r is Nothing && t.menu == s.menu
    }
}

/// What a key press does while editing (no picker open): Control+C and Esc
/// quit, Control+L repaints, other characters are typed at the cursor,
/// Backspace/Delete remove a character, Left/Right move the cursor,
/// Home/End move it to the ends (or, with an empty input, jump to the top of
/// the conversation / pin it to the newest content), the page keys scroll
/// the conversation, and Enter hands the input over (see [`is_chat`]); while
/// a request runs a chat message stays in the input with a notice instead.
pub open spec fn edit_effect(s: UiState, t: UiState, key: Key, r: KeyOutcome) -> bool {
    &&& t.menu is None
    &&& match key {
        Key::Char { c, ctrl } => if ctrl && c == 'c' {
            r is Quit
        } else if ctrl && c == 'l' {
            r is ClearScreen && t.dirty && t.input == s.input
        } else {
            r is Nothing && (s.cursor < usize::MAX ==> t.input@ == inserted(
                s.input@,
                s.cursor as int,
                c,
            ) && t.cursor == s.cursor + 1)
        },
        Key::Esc => r is Quit,
        Key::Backspace => r is Nothing && if s.cursor > 0 {
            t.cursor == s.cursor - 1 && t.input@ == removed(s.input@, s.cursor - 1)
        } else {
            t.cursor == 0 && t.input == s.input
        },
        Key::Delete => r is Nothing && t.cursor == s.cursor && if s.cursor < s.input@.len() {
            t.input@ == removed(s.input@, s.cursor as int)
        } else {
            t.input == s.input
        },
        Key::Left => r is Nothing && t.input == s.input && t.cursor == up_one(s.cursor as int),
        Key::Right => r is Nothing && t.input == s.input && t.cursor == (if s.cursor
            < s.input@.len() {
            s.cursor + 1
        } else {
            s.input@.len() as int
        }),
        Key::Home => r is Nothing && t.input == s.input && if s.input@.len() == 0 {
            t.conv_scroll == 0 && !t.conv_pinned
        } else {
            t.cursor == 0
        },
        Key::End => r is Nothing && t.input == s.input && if s.input@.len() == 0 {
            t.conv_pinned
        } else {
            t.cursor == s.input@.len()
        },
        Key::PageUp => r is Nothing && t.input == s.input && !t.conv_pinned && t.conv_scroll
            == scrolled_up(s.conv_scroll as int, page_rows(s.conv_inner)),
        Key::PageDown => r is Nothing && t.input == s.input && t.conv_scroll == scrolled_down(
            s.conv_scroll as int,
            page_rows(s.conv_inner),
            s.conv_max as int,
        ) && t.conv_pinned == (t.conv_scroll >= s.conv_max),
        Key::Enter => {
            let text = s.input@;
            if s.status@ != READY@ && is_chat(text) {
                &&& t.input == s.input
                &&& t.cursor == text.len()
                &&& t.lines@ == s.lines@.push(Line { kind: Kind::Info, text: t.lines@.last().text })
                &&& t.lines@.last().text@ == STILL_GENERATING@
                &&& r is Nothing
            } else {
                &&& t.input@.len() == 0
                &&& t.cursor == 0
                &&& t.lines == s.lines
                &&& (r matches KeyOutcome::Enter { text: sent, chat } && sent@ == text && chat
                    == is_chat(text))
                &&& (is_chat(text) ==> t.conv_pinned)
            }
        },
        _ => r is Nothing && t.input == s.input && t.cursor == s.cursor,
    }
}

impl UiState {
    /// The cursor lies within the input, and an open picker is well formed.
    pub open spec fn wf(&self) -> bool {
        &&& self.cursor <= self.input@.len()
        &&& (self.menu matches Some(m) ==> m.wf())
    }

    /// Whether a request is running (the status is not `ready`).
    pub fn is_busy(&self) -> (r: bool)
        ensures
            r == (self.status@ != READY@),
    {
        !crate::text::str_eq(self.status.as_str(), READY)
    }

    /// Whether the screen must be redrawn; clears the request.
    pub fn take_redraw(&mut self) -> (r: bool)
        ensures
            r == old(self).dirty,
            !final(self).dirty,
            final(self).lines == old(self).lines,
            final(self).input == old(self).input,
            final(self).cursor == old(self).cursor,
    {
        let r = self.dirty;
        self.dirty = false;
        r
    }

    /// Advance the animation while a request runs.
    pub fn tick(&mut self)
        ensures
            final(self).anim_tick == if old(self).anim_tick == u64::MAX {
                0
            } else {
                (old(self).anim_tick + 1) as u64
            },
            final(self).dirty,
            final(self).input == old(self).input,
    {
        self.anim_tick = if self.anim_tick == u64::MAX {
            0
        } else {
            self.anim_tick + 1
        };
        self.dirty = true;
    }

    /// Insert `c` when there is room for the cursor to advance.
    fn type_char(&mut self, c: char)
        requires
            old(self).wf(),
        ensures
            final(self).wf(),
            old(self).cursor < usize::MAX ==> final(self).input@ == inserted(
                old(self).input@,
                old(self).cursor as int,
                c,
            ) && final(self).cursor == old(self).cursor + 1,
            final(self).menu == old(self).menu,
            final(self).lines == old(self).lines,
            final(self).status == old(self).status,
    {
        if self.cursor < usize::MAX {
            self.insert_char(c);
        }
    }

    /// Pasted (or IME-committed) text: its characters, control characters
    /// excepted, are typed at the cursor.
    pub fn paste(&mut self, text: &str)
        requires
            old(self).wf(),
        ensures
            final(self).wf(),
            final(self).menu == old(self).menu,
            final(self).lines == old(self).lines,
            old(self).cursor + printable(text@).len() <= usize::MAX ==> {
                &&& final(self).input@ == old(self).input@.take(old(self).cursor as int) + printable(
                    text@,
                ) + old(self).input@.skip(old(self).cursor as int)
                &&& final(self).cursor == old(self).cursor + printable(text@).len()
            },
    {
        let v = chars_of(text);
        let ghost c0 = self.cursor as int;
        let ghost in0 = self.input@;
        let ghost fits = c0 + printable(v@).len() <= usize::MAX;
        let mut i: usize = 0;
        assert(v@.take(0) =~= Seq::<char>::empty());
        assert(in0.take(c0) + Seq::<char>::empty() + in0.skip(c0) =~= in0);
        while i < v.len()
            invariant
                i <= v.len(),
                self.wf(),
                self.menu == old(self).menu,
                self.lines == old(self).lines,
                0 <= c0 <= in0.len(),
                fits == (c0 + printable(v@).len() <= usize::MAX),
                fits ==> self.cursor == c0 + printable(v@.take(i as int)).len(),
                fits ==> self.input@ == in0.take(c0) + printable(v@.take(i as int)) + in0.skip(c0),
            decreases v.len() - i,
        {
            let c = v[i];
            let code = c as u32;
            proof {
                assert(v@.take(i + 1).drop_last() =~= v@.take(i as int));
                assert(v@.take(i + 1).last() == c);
                lemma_printable_grows(v@, i + 1, v@.len() as int);
                assert(v@.take(v@.len() as int) =~= v@);
            }
            if !(code < 0x20 || (0x7f <= code && code <= 0x9f)) {
                let ghost before = self.input@;
                let ghost k = self.cursor as int;
                self.type_char(c);
                proof {
                    if fits {
                        let p = printable(v@.take(i as int));
                        assert(before == in0.take(c0) + p + in0.skip(c0));
                        assert(k == c0 + p.len());
                        assert(before.len() == in0.len() + p.len());
                        assert(before.take(k) =~= in0.take(c0) + p);
                        assert(before.skip(k) =~= in0.skip(c0));
                        assert(self.input@ =~= in0.take(c0) + (p + seq![c]) + in0.skip(c0));
                    }
                }
            } else {
                assert(printable(v@.take(i + 1)) =~= printable(v@.take(i as int)));
            }
            i = i + 1;
        }
        assert(v@.take(v.len() as int) =~= v@);
    }

    /// A mouse-wheel step: moves the picker's highlight while it is open,
    /// else scrolls the conversation by three rows.
    pub fn scroll_wheel(&mut self, up: bool)
        requires
            old(self).wf(),
        ensures
            final(self).wf(),
            final(self).dirty,
            final(self).input == old(self).input,
            final(self).lines == old(self).lines,
            match old(self).menu {
                Some(m) => final(self).menu matches Some(n) && n.items == m.items && n.selected == if up {
                    up_one(m.selected as int)
                } else {
                    down_one(m.selected as int, m.items@.len() as int)
                },
                None => final(self).menu is None && if up {
                    !final(self).conv_pinned && final(self).conv_scroll == scrolled_up(
                        old(self).conv_scroll as int,
                        3,
                    )
                } else {
                    final(self).conv_scroll == scrolled_down(
                        old(self).conv_scroll as int,
                        3,
                        old(self).conv_max as int,
                    ) && final(self).conv_pinned == (final(self).conv_scroll >= old(self).conv_max)
                },
            },
    {
        match &mut self.menu {
            Some(m) => {
                if up {
                    m.prev();
                } else {
                    m.next();
                }
                self.dirty = true;
            },
            None => {
                if up {
                    self.conv_scroll_up(3);
                } else {
                    self.conv_scroll_down(3);
                }
            },
        }
    }

    fn menu_key(&mut self, key: Key) -> (r: KeyOutcome)
        requires
            old(self).wf(),
            old(self).menu is Some,
        ensures
            final(self).wf(),
            menu_effect(*old(self), *final(self), key, r),
    {
        let is_ctrl_c = match key {
            Key::Char { c, ctrl } => ctrl && c == 'c',
            _ => false,
        };
        let is_ctrl_l = match key {
            Key::Char { c, ctrl } => ctrl && c == 'l',
            _ => false,
        };
        let plain = match key {
            Key::Char { c, ctrl } => if is_ctrl_c || is_ctrl_l {
                None
            } else {
                Some(c)
            },
            _ => None,
        };
        if is_ctrl_c {
            return KeyOutcome::Quit;
        }
        if is_ctrl_l {
            self.dirty = true;
            return KeyOutcome::ClearScreen;
        }
        let up = key == Key::Up || plain == Some('k');
        let down = key == Key::Down || plain == Some('j');
        if up || down || key == Key::PageUp || key == Key::PageDown {
            match &mut self.menu {
                Some(m) => {
                    if up {
                        m.prev();
                    } else if down {
                        m.next();
                    } else if key == Key::PageUp {
                        m.page_up();
                    } else if m.items.len() > 0 {
                        m.page_down();
                    }
                },
                None => {},
            }
            self.dirty = true;
            return KeyOutcome::Nothing;
        }
        if key == Key::Enter {
            self.dirty = true;
            let picked = match &self.menu {
                Some(m) => m.selected(),
                None => None,
            };
            self.menu = None;
            return match picked {
                Some(a) => KeyOutcome::PickAgent { agent: a },
                None => KeyOutcome::Nothing,
            };
        }
        if key == Key::Esc || plain == Some('q') {
            self.menu = None;
            self.dirty = true;
        }
        KeyOutcome::Nothing
    }

    fn edit_key(&mut self, key: Key) -> (r: KeyOutcome)
        requires
            old(self).wf(),
            old(self).menu is None,
        ensures
            final(self).wf(),
            edit_effect(*old(self), *final(self), key, r),
    {
        match key {
            Key::Char { c, ctrl } => {
                if ctrl && c == 'c' {
                    return KeyOutcome::Quit;
                }
                if ctrl && c == 'l' {
                    self.dirty = true;
                    return KeyOutcome::ClearScreen;
                }
                self.type_char(c);
                KeyOutcome::Nothing
            },
            Key::Esc => KeyOutcome::Quit,
            Key::Backspace => {
                self.backspace();
                KeyOutcome::Nothing
            },
            Key::Delete => {
                self.delete();
                KeyOutcome::Nothing
            },
            Key::Left => {
                self.move_left();
                KeyOutcome::Nothing
            },
            Key::Right => {
                self.move_right();
                KeyOutcome::Nothing
            },
            Key::Home => {
                if self.input.as_str().is_empty() {
                    self.conv_scroll_top();
                } else {
                    self.home();
                }
                KeyOutcome::Nothing
            },
            Key::End => {
                if self.input.as_str().is_empty() {
                    self.conv_pin();
                } else {
                    self.end();
                }
                KeyOutcome::Nothing
            },
            Key::PageUp => {
                let page = if self.conv_inner < 1 {
                    1
                } else {
                    self.conv_inner
                };
                self.conv_scroll_up(page);
                KeyOutcome::Nothing
            },
            Key::PageDown => {
                let page = if self.conv_inner < 1 {
                    1
                } else {
                    self.conv_inner
                };
                self.conv_scroll_down(page);
                KeyOutcome::Nothing
            },
            Key::Enter => {
                let busy = self.is_busy();
                let text = self.input.clone();
                let t = trim_str(text.as_str());
                let chat = !t.as_str().is_empty() && !crate::text::starts_with_str(
                    text.as_str(),
                    SLASH,
                );
                if busy && chat {
                    self.cursor = self.char_len();
                    self.push(Kind::Info, owned(STILL_GENERATING));
                    return KeyOutcome::Nothing;
                }
                self.input = String::new();
                self.cursor = 0;
                self.dirty = true;
                if chat {
                    self.conv_pin();
                }
                KeyOutcome::Enter { text, chat }
            },
            _ => KeyOutcome::Nothing,
        }
    }

    /// Handle a key press. While the picker is open it is modal: keys
    /// navigate it instead of editing the input.
    pub fn handle_key(&mut self, key: Key) -> (r: KeyOutcome)
        requires
            old(self).wf(),
        ensures
            final(self).wf(),
            old(self).menu is Some ==> menu_effect(*old(self), *final(self), key, r),
            old(self).menu is None ==> edit_effect(*old(self), *final(self), key, r),
    {
        if self.menu.is_some() {
            self.menu_key(key)
        } else {
            self.edit_key(key)
        }
    }
}

// ---------------------------------------------------------------------------
// Streamed replies
// ---------------------------------------------------------------------------

/// An event of a session's stream, as plain values.
#[derive(Debug, Clone)]
pub enum UiEvent {
    /// A reasoning delta.
    Thinking { delta: String },
    /// A reply text delta.
    Chunk { delta: String },
    /// A tool finished.
    ToolResult { tool_name: String, result: String },
    /// The model asked for these tools.
    Fragment { tool_names: Vec<String> },
    /// The reply is complete.
    End,
    /// The reply failed.
    Error { message: String },
    /// Anything else.
    Other,
}

/// How many characters of a tool result are shown.
pub const TOOL_RESULT_SHOWN: usize = 400;

pub const OPEN_BRACKET: &'static str = "[";

pub const CLOSE_BRACKET: &'static str = "] ";

pub const EXECUTING: &'static str = "[Executing tool: ";

pub const EXECUTING_TAIL: &'static str = "]";

pub const NAME_SEPARATOR: &'static str = ", ";

/// The line shown for a tool result: `[name] ` and the result's first 400
/// characters.
pub open spec fn tool_result_line(name: Seq<char>, result: Seq<char>) -> Seq<char> {
    OPEN_BRACKET@ + name + CLOSE_BRACKET@ + result.take(
        if result.len() < TOOL_RESULT_SHOWN { result.len() as int } else { TOOL_RESULT_SHOWN as int },
    )
}

/// Whether the last line has the given kind.
pub open spec fn last_is(lines: Seq<Line>, kind: Kind) -> bool {
    lines.len() > 0 && lines.last().kind == kind
}

impl UiState {
    fn append_to_last(&mut self, delta: &str)
        requires
            old(self).lines@.len() > 0,
        ensures
            final(self).lines@ == old(self).lines@.update(
                old(self).lines@.len() - 1,
                Line {
                    kind: old(self).lines@.last().kind,
                    text: final(self).lines@.last().text,
                },
            ),
            final(self).lines@.last().text@ == old(self).lines@.last().text@ + delta@,
            final(self).dirty,
            final(self).input == old(self).input,
            final(self).cursor == old(self).cursor,
            final(self).menu == old(self).menu,
            final(self).status == old(self).status,
    {
        let n = self.lines.len();
        let last = &self.lines[n - 1];
        let mut text = last.text.clone();
        push_str(&mut text, delta);
        let line = Line { kind: last.kind, text };
        let mut lines: Vec<Line> = Vec::new();
        std::mem::swap(&mut lines, &mut self.lines);
        lines.set(n - 1, line);
        self.lines = lines;
        self.dirty = true;
    }

    /// Fold one streamed event into the conversation: reasoning deltas grow
    /// a thinking line (opened on the first delta after other output), reply
    /// deltas grow the last reply line (or start one), tool results and tool
    /// requests get a line each, and an error gets a line. Returns whether
    /// the stream is over (end or error).
    pub fn on_stream_event(&mut self, thinking_open: bool, ev: UiEvent) -> (r: (bool, bool))
        requires
            old(self).wf(),
        ensures
            final(self).wf(),
            final(self).input == old(self).input,
            final(self).cursor == old(self).cursor,
            r.0 == (ev is End || ev is Error),
            r.1 == (ev is Thinking || (thinking_open && (ev is End || ev is Error || ev is Other))),
            match ev {
                UiEvent::Chunk { delta } => if last_is(old(self).lines@, Kind::Assistant) {
                    final(self).lines@.len() == old(self).lines@.len() && final(self).lines@.last().text@
                        == old(self).lines@.last().text@ + delta@
                } else {
                    final(self).lines@ == old(self).lines@.push(Line { kind: Kind::Assistant, text: delta })
                },
                UiEvent::ToolResult { tool_name, result } => final(self).lines@.len() == old(self).lines@.len() + 1 && final(self).lines@.last().kind == Kind::Tool && final(self).lines@.last().text@ == tool_result_line(tool_name@, result@),
                UiEvent::Error { message } => final(self).lines@ == old(self).lines@.push(
                    Line { kind: Kind::Error, text: message },
                ),
                UiEvent::Thinking { delta } => if !thinking_open {
                    final(self).lines@ == old(self).lines@.push(
                        Line { kind: Kind::Thinking, text: final(self).lines@.last().text },
                    ) && final(self).lines@.last().text@ == delta@
                } else if last_is(old(self).lines@, Kind::Thinking) {
                    final(self).lines@ == old(self).lines@.update(
                        old(self).lines@.len() - 1,
                        Line { kind: Kind::Thinking, text: final(self).lines@.last().text },
                    ) && final(self).lines@.last().text@ == old(self).lines@.last().text@ + delta@
                } else {
                    final(self).lines == old(self).lines
                },
                UiEvent::Fragment { tool_names } => final(self).lines@.len() == old(self).lines@.len()
                    + 1 && final(self).lines@.last().kind == Kind::Tool && final(self).lines@.last().text@
                    == EXECUTING@ + join(views(tool_names@), NAME_SEPARATOR@) + EXECUTING_TAIL@,
                UiEvent::End => final(self).lines == old(self).lines,
                UiEvent::Other => final(self).lines == old(self).lines,
            },
    {
        match ev {
            UiEvent::Thinking { delta } => {
                if !thinking_open {
                    self.push(Kind::Thinking, String::new());
                }
                let n = self.lines.len();
                if n > 0 && self.lines[n - 1].kind == Kind::Thinking {
                    self.append_to_last(delta.as_str());
                }
                (false, true)
            },
            UiEvent::Chunk { delta } => {
                let n = self.lines.len();
                if n > 0 && self.lines[n - 1].kind == Kind::Assistant {
                    self.append_to_last(delta.as_str());
                } else {
                    self.push(Kind::Assistant, delta);
                }
                (false, false)
            },
            UiEvent::ToolResult { tool_name, result } => {
                let mut text = owned(OPEN_BRACKET);
                push_str(&mut text, tool_name.as_str());
                push_str(&mut text, CLOSE_BRACKET);
                let shown = take_chars(&chars_of(result.as_str()), TOOL_RESULT_SHOWN);
                push_str(&mut text, string_of(&shown).as_str());
                self.push(Kind::Tool, text);
                (false, false)
            },
            UiEvent::Fragment { tool_names } => {
                let mut text = owned(EXECUTING);
                let joined = crate::text::join_strings(&tool_names, NAME_SEPARATOR);
                push_str(&mut text, joined.as_str());
                push_str(&mut text, EXECUTING_TAIL);
                self.push(Kind::Tool, text);
                (false, false)
            },
            UiEvent::End => (true, thinking_open),
            UiEvent::Error { message } => {
                self.push(Kind::Error, message);
                (true, thinking_open)
            },
            UiEvent::Other => (false, thinking_open),
        }
    }

    /// Refresh the conversation's scroll metrics for a frame whose wrapped
    /// text has `wrapped_rows` rows shown in `inner_rows` rows: the largest
    /// scroll is the rows that do not fit; a pinned view shows the newest
    /// rows, any other keeps its offset (clamped), and reaching the newest
    /// rows pins it. Returns the scroll to draw with.
    pub fn conv_view(&mut self, wrapped_rows: usize, inner_rows: usize) -> (r: usize)
        ensures
            final(self).conv_max == if wrapped_rows > inner_rows {
                (wrapped_rows - inner_rows) as usize
            } else {
                0
            },
            final(self).conv_inner == inner_rows,
            r == if old(self).conv_pinned {
                final(self).conv_max
            } else if old(self).conv_scroll < final(self).conv_max {
                old(self).conv_scroll
            } else {
                final(self).conv_max
            },
            final(self).conv_scroll == r,
            final(self).conv_pinned == (old(self).conv_pinned || r >= final(self).conv_max),
            r <= final(self).conv_max,
            final(self).input == old(self).input,
            final(self).cursor == old(self).cursor,
            final(self).menu == old(self).menu,
            final(self).lines == old(self).lines,
    {
        let max = if wrapped_rows > inner_rows {
            wrapped_rows - inner_rows
        } else {
            0
        };
        let effective = if self.conv_pinned {
            max
        } else if self.conv_scroll < max {
            self.conv_scroll
        } else {
            max
        };
        self.conv_max = max;
        self.conv_inner = inner_rows;
        self.conv_scroll = effective;
        if !self.conv_pinned && effective >= max {
            self.conv_pinned = true;
        }
        effective
    }

    /// The input split at the caret: the text before it, the character under
    /// it (a space at the end) and the text after it.
    pub fn caret_parts(&self) -> (r: (String, char, String))
        ensures
            ({
                let s = self.input@;
                let k: int = if self.cursor < s.len() { self.cursor as int } else { s.len() as int };
                &&& r.0@ == s.take(k)
                &&& r.1 == if k < s.len() { s[k] } else { ' ' }
                &&& r.2@ == if k < s.len() { s.skip(k + 1) } else { Seq::<char>::empty() }
            }),
    {
        let chars = chars_of(self.input.as_str());
        let k = if self.cursor < chars.len() {
            self.cursor
        } else {
            chars.len()
        };
        let before = crate::text::slice_chars(&chars, 0, k);
        assert(chars@.subrange(0, k as int) =~= chars@.take(k as int));
        if k < chars.len() {
            let after = crate::text::slice_chars(&chars, k + 1, chars.len());
            assert(chars@.subrange(k + 1, chars@.len() as int) =~= chars@.skip(k + 1));
            (string_of(&before), chars[k], string_of(&after))
        } else {
            (string_of(&before), ' ', String::new())
        }
    }
}

/// The spinner frames shown while a request runs.
pub open spec fn spinner_frame(tick: u64) -> char {
    let i = tick % 4;
    if i == 0 {
        '|'
    } else if i == 1 {
        '/'
    } else if i == 2 {
        '-'
    } else {
        '\\'
    }
}

/// The status shown in the input box's title: the spinner frame and the
/// status while a request runs, else the status.
pub fn status_text(status: &str, anim_tick: u64) -> (r: String)
    ensures
        r@ == if status@ != READY@ {
            seq![' ', spinner_frame(anim_tick), ' '] + status@
        } else {
            status@
        },
{
    if crate::text::str_eq(status, READY) {
        return owned(status);
    }
    let i = anim_tick % 4;
    let frame = if i == 0 {
        '|'
    } else if i == 1 {
        '/'
    } else if i == 2 {
        '-'
    } else {
        '\\'
    };
    let mut v: Vec<char> = Vec::new();
    v.push(' ');
    v.push(frame);
    v.push(' ');
    crate::text::extend_chars(&mut v, &chars_of(status));
    assert(v@ =~= seq![' ', spinner_frame(anim_tick), ' '] + status@);
    string_of(&v)
}

/// The rows of input kept visible: the input box shows three rows.
pub const INPUT_ROWS: usize = 3;

/// How far the input is scrolled so that the caret, on wrapped row
/// `caret_row`, stays on the box's last row once it would leave the box.
pub fn input_scroll(caret_row: usize) -> (r: usize)
    ensures
        r == if caret_row >= INPUT_ROWS - 1 { caret_row - (INPUT_ROWS - 1) } else { 0 },
{
    if caret_row >= INPUT_ROWS - 1 {
        caret_row - (INPUT_ROWS - 1)
    } else {
        0
    }
}

// ---------------------------------------------------------------------------
// Slash commands
// ---------------------------------------------------------------------------

/// A slash command.
#[derive(Debug, Clone)]
pub enum Command {
    Quit,
    New,
    Clear,
    SessionList,
    SkillList,
    /// `/agent`: open the agent picker.
    AgentMenu,
    Help,
    /// `/session <id>`.
    Session { id: String },
    /// `/agent <id>`.
    Agent { id: String },
    /// `/workdir <path>`.
    Workdir { path: String },
    /// Not a command.
    NoCommand,
}

/// The plain value of a [`Command`].
pub enum CommandView {
    Quit,
    New,
    Clear,
    SessionList,
    SkillList,
    AgentMenu,
    Help,
    Session(Seq<char>),
    Agent(Seq<char>),
    Workdir(Seq<char>),
    NoCommand,
}

impl View for Command {
    type V = CommandView;

    open spec fn view(&self) -> CommandView {
        match self {
            Command::Quit => CommandView::Quit,
            Command::New => CommandView::New,
            Command::Clear => CommandView::Clear,
            Command::SessionList => CommandView::SessionList,
            Command::SkillList => CommandView::SkillList,
            Command::AgentMenu => CommandView::AgentMenu,
            Command::Help => CommandView::Help,
            Command::Session { id } => CommandView::Session(id@),
            Command::Agent { id } => CommandView::Agent(id@),
            Command::Workdir { path } => CommandView::Workdir(path@),
            Command::NoCommand => CommandView::NoCommand,
        }
    }
}

pub const CMD_QUIT: &'static str = "/quit";

pub const CMD_NEW: &'static str = "/new";

pub const CMD_CLEAR: &'static str = "/clear";

pub const CMD_SESSION_LIST: &'static str = "/session_list";

pub const CMD_SKILL_LIST: &'static str = "/skill list";

pub const CMD_SKILLS: &'static str = "/skills";

pub const CMD_AGENT: &'static str = "/agent";

pub const CMD_HELP: &'static str = "/help";

pub const CMD_SESSION_PREFIX: &'static str = "/session ";

pub const CMD_AGENT_PREFIX: &'static str = "/agent ";

pub const CMD_WORKDIR_PREFIX: &'static str = "/workdir ";

/// The command a line of input is: matched on the trimmed text, exact
/// commands first, then `/session `, `/agent ` and `/workdir ` followed by
/// an argument (trimmed).
pub open spec fn command_of(text: Seq<char>) -> CommandView {
    let t = trim(text);
    if t == CMD_QUIT@ {
        CommandView::Quit
    } else if t == CMD_NEW@ {
        CommandView::New
    } else if t == CMD_CLEAR@ {
        CommandView::Clear
    } else if t == CMD_SESSION_LIST@ {
        CommandView::SessionList
    } else if t == CMD_SKILL_LIST@ || t == CMD_SKILLS@ {
        CommandView::SkillList
    } else if t == CMD_AGENT@ {
        CommandView::AgentMenu
    } else if t == CMD_HELP@ {
        CommandView::Help
    } else if crate::text::starts_with(t, CMD_SESSION_PREFIX@) {
        CommandView::Session(trim(t.skip(CMD_SESSION_PREFIX@.len() as int)))
    } else if crate::text::starts_with(t, CMD_AGENT_PREFIX@) {
        CommandView::Agent(trim(t.skip(CMD_AGENT_PREFIX@.len() as int)))
    } else if crate::text::starts_with(t, CMD_WORKDIR_PREFIX@) {
        CommandView::Workdir(trim(t.skip(CMD_WORKDIR_PREFIX@.len() as int)))
    } else {
        CommandView::NoCommand
    }
}

/// Each documented command parses to its own command, and only its text
/// does: a line is `/quit`, `/new`, `/clear`, `/session_list`, `/help` or
/// `/agent` (surrounding whitespace aside) exactly when it parses to quit,
/// new session, clear, the session list, help or the agent menu, and
/// `/skill list` or `/skills` exactly when it parses to the skill list. So
/// no two documented commands parse to the same command.
pub proof fn law_commands_parse_to_their_own(text: Seq<char>)
    ensures
        (command_of(text) == CommandView::Quit) <==> trim(text) == CMD_QUIT@,
        (command_of(text) == CommandView::New) <==> trim(text) == CMD_NEW@,
        (command_of(text) == CommandView::Clear) <==> trim(text) == CMD_CLEAR@,
        (command_of(text) == CommandView::SessionList) <==> trim(text) == CMD_SESSION_LIST@,
        (command_of(text) == CommandView::SkillList) <==> (trim(text) == CMD_SKILL_LIST@ || trim(text)
            == CMD_SKILLS@),
        (command_of(text) == CommandView::AgentMenu) <==> trim(text) == CMD_AGENT@,
        (command_of(text) == CommandView::Help) <==> trim(text) == CMD_HELP@,
{
    reveal_strlit("/quit");
    reveal_strlit("/new");
    reveal_strlit("/clear");
    reveal_strlit("/session_list");
    reveal_strlit("/skill list");
    reveal_strlit("/skills");
    reveal_strlit("/agent");
    reveal_strlit("/help");
    let t = trim(text);
    assert(CMD_QUIT@[1] == 'q' && CMD_NEW@[1] == 'n' && CMD_CLEAR@[1] == 'c' && CMD_HELP@[1] == 'h');
    assert(CMD_SESSION_LIST@[1] == 's' && CMD_SKILL_LIST@[1] == 's' && CMD_SKILLS@[1] == 's');
    assert(CMD_AGENT@[1] == 'a');
    assert(CMD_SESSION_LIST@[2] == 'e' && CMD_SKILL_LIST@[2] == 'k' && CMD_SKILLS@[2] == 'k');
    assert(CMD_SKILL_LIST@.len() != CMD_SKILLS@.len());
}

fn argument_after(t: &String, prefix: &str) -> (r: String)
    requires
        crate::text::starts_with(t@, prefix@),
    ensures
        r@ == trim(t@.skip(prefix@.len() as int)),
{
    let v = chars_of(t.as_str());
    let p = chars_of(prefix);
    let rest = crate::text::slice_chars(&v, p.len(), v.len());
    assert(rest@ =~= v@.skip(p@.len() as int));
    string_of(&trim_chars(&rest))
}

/// Parse a line of input as a slash command.
pub fn parse_command(text: &str) -> (r: Command)
    ensures
        r@ == command_of(text@),
{
    let t = trim_str(text);
    let s = t.as_str();
    if crate::text::str_eq(s, CMD_QUIT) {
        Command::Quit
    } else if crate::text::str_eq(s, CMD_NEW) {
        Command::New
    } else if crate::text::str_eq(s, CMD_CLEAR) {
        Command::Clear
    } else if crate::text::str_eq(s, CMD_SESSION_LIST) {
        Command::SessionList
    } else if crate::text::str_eq(s, CMD_SKILL_LIST) || crate::text::str_eq(s, CMD_SKILLS) {
        Command::SkillList
    } else if crate::text::str_eq(s, CMD_AGENT) {
        Command::AgentMenu
    } else if crate::text::str_eq(s, CMD_HELP) {
        Command::Help
    } else if crate::text::starts_with_str(s, CMD_SESSION_PREFIX) {
        Command::Session { id: argument_after(&t, CMD_SESSION_PREFIX) }
    } else if crate::text::starts_with_str(s, CMD_AGENT_PREFIX) {
        Command::Agent { id: argument_after(&t, CMD_AGENT_PREFIX) }
    } else if crate::text::starts_with_str(s, CMD_WORKDIR_PREFIX) {
        Command::Workdir { path: argument_after(&t, CMD_WORKDIR_PREFIX) }
    } else {
        Command::NoCommand
    }
}

/// The width the command column of the help text is padded to.
pub const HELP_COLUMN: usize = 20;

/// `s` padded with spaces to `width` characters (unchanged when longer).
pub open spec fn padded(s: Seq<char>, width: int) -> Seq<char> {
    if s.len() < width {
        s + Seq::new((width - s.len()) as nat, |i: int| ' ')
    } else {
        s
    }
}

/// The slash commands and what they do, in the order `/help` lists them.
pub open spec fn help_entries() -> Seq<(Seq<char>, Seq<char>)> {
    seq![
        ("/new"@, "start a new session"@),
        ("/clear"@, "clear this session's messages"@),
        ("/session <id>"@, "switch to a session"@),
        ("/session_list"@, "list all sessions"@),
        ("/agent"@, "list available agents"@),
        ("/agent <id>"@, "switch to an agent"@),
        ("/skill list"@, "list available skills"@),
        ("/workdir <path>"@, "set + persist working directory"@),
        ("/help"@, "show this help"@),
        ("/quit"@, "exit fastclaw"@),
    ]
}

fn help_table() -> (r: Vec<(&'static str, &'static str)>)
    ensures
        r@.len() == help_entries().len(),
        forall|i: int| 0 <= i < r@.len() ==> (#[trigger] r@[i]).0@ == help_entries()[i].0 && r@[i].1@
            == help_entries()[i].1,
{
    let r = vec![
        ("/new", "start a new session"),
        ("/clear", "clear this session's messages"),
        ("/session <id>", "switch to a session"),
        ("/session_list", "list all sessions"),
        ("/agent", "list available agents"),
        ("/agent <id>", "switch to an agent"),
        ("/skill list", "list available skills"),
        ("/workdir <path>", "set + persist working directory"),
        ("/help", "show this help"),
        ("/quit", "exit fastclaw"),
    ];
    r
}

pub const HELP_HEAD: &'static str = "Commands:";

pub const HELP_INDENT: &'static str = "\n  ";

/// The help text for the first `n` entries.
pub open spec fn help_text_of(n: int) -> Seq<char>
    decreases n,
{
    if n <= 0 {
        HELP_HEAD@
    } else {
        help_text_of(n - 1) + HELP_INDENT@ + padded(help_entries()[n - 1].0, HELP_COLUMN as int)
            + seq![' '] + help_entries()[n - 1].1
    }
}

/// The `/help` text: a heading, then one line per command with the command
/// padded to 20 characters.
pub fn help_text() -> (r: String)
    ensures
        r@ == help_text_of(help_entries().len() as int),
{
    let table = help_table();
    let mut out = owned(HELP_HEAD);
    let mut i: usize = 0;
    while i < table.len()
        invariant
            i <= table.len(),
            table@.len() == help_entries().len(),
            forall|x: int| 0 <= x < table@.len() ==> (#[trigger] table@[x]).0@ == help_entries()[x].0
                && table@[x].1@ == help_entries()[x].1,
            out@ == help_text_of(i as int),
        decreases table.len() - i,
    {
        let (cmd, desc) = table[i];
        push_str(&mut out, HELP_INDENT);
        let v = chars_of(cmd);
        let mut p = v.clone();
        let mut k = v.len();
        while k < HELP_COLUMN
            invariant
                v.len() <= k <= HELP_COLUMN || (k == v.len() && v.len() >= HELP_COLUMN),
                p@ == v@ + Seq::new((k - v.len()) as nat, |j: int| ' '),
            decreases HELP_COLUMN - k,
        {
            p.push(' ');
            assert(p@ =~= v@ + Seq::new((k + 1 - v.len()) as nat, |j: int| ' '));
            k = k + 1;
        }
        proof {
            if v@.len() >= HELP_COLUMN {
                assert(p@ =~= v@);
            }
        }
        push_str(&mut out, string_of(&p).as_str());
        push_str(&mut out, " ");
        push_str(&mut out, desc);
        proof {
            reveal_strlit(" ");
        }
        assert(out@ =~= help_text_of(i + 1));
        i = i + 1;
    }
    out
}

pub const SESSION_ITEM: &'static str = "  - ";

pub const CURRENT_MARK: &'static str = " <-- current";

/// The `/session_list` line of a session, marked when it is the current one.
pub fn session_line(session_id: &str, current: &str) -> (r: String)
    ensures
        r@ == SESSION_ITEM@ + session_id@ + if session_id@ == current@ {
            CURRENT_MARK@
        } else {
            Seq::<char>::empty()
        },
{
    let mut out = owned(SESSION_ITEM);
    push_str(&mut out, session_id);
    if crate::text::str_eq(session_id, current) {
        push_str(&mut out, CURRENT_MARK);
    } else {
        assert(out@ + Seq::<char>::empty() =~= out@);
    }
    out
}

} // verus!
