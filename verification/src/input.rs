use vstd::prelude::*;
use vstd::string::*;
use vstd::utf8::*;


verus! {

broadcast use vstd::utf8::encode_utf8_decode_utf8;

/// The keys that the match tracker reacts to; every other key is `Other`.
#[derive(Debug, Clone, Copy, PartialEq, Eq, Structural)]
pub enum KeyCode {
    Char(char),
    Tab,
    Enter,
    Esc,
    Backspace,
    Delete,
    Left,
    Right,
    Home,
    End,
    Other,
}

/// A key press.
#[derive(Debug, Clone, Copy, PartialEq, Eq, Structural)]
pub struct KeyEvent {
    pub code: KeyCode,
}

/// The UTF-8 bytes of a text.
pub open spec fn utf8(s: Seq<char>) -> Seq<u8> {
    encode_utf8(s)
}

/// The text after inserting `c` at byte offset `idx` of `s`.
pub open spec fn insert_at_byte(s: Seq<char>, idx: int, c: char) -> Seq<char> {
    decode_utf8(utf8(s).take(idx) + utf8(seq![c]) + utf8(s).skip(idx))
}

/// The text after removing the character that starts at byte offset `idx` of `s`.
pub open spec fn remove_at_byte(s: Seq<char>, idx: int) -> Seq<char> {
    decode_utf8(utf8(s).take(idx) + pop_first_scalar(utf8(s).skip(idx)))
}

/// Inserts a character at a byte offset, as `String::insert` does; the offset
/// must lie on a character boundary.
#[verifier::external_body]
fn insert_char(s: &mut String, idx: usize, c: char)
    requires
        is_char_boundary(utf8(old(s)@), idx as int),
    ensures
        utf8(final(s)@) == utf8(old(s)@).take(idx as int) + utf8(seq![c]) + utf8(old(s)@).skip(
            idx as int,
        ),
{
    s.insert(idx, c);
}

/// Removes the character that starts at a byte offset, as `String::remove`
/// does, and returns it; the offset must be below the byte length and lie on
/// a character boundary.
#[verifier::external_body]
fn remove_char(s: &mut String, idx: usize) -> (r: char)
    requires
        idx < utf8(old(s)@).len(),
        is_char_boundary(utf8(old(s)@), idx as int),
    ensures
        r == decode_first_scalar(utf8(old(s)@).skip(idx as int)) as char,
        utf8(final(s)@) == utf8(old(s)@).take(idx as int) + pop_first_scalar(
            utf8(old(s)@).skip(idx as int),
        ),
{
    s.remove(idx)
}

/// The abstract state of a one-line text prompt: the text typed so far, whether
/// the prompt is open, the prompt text, and the cursor as a byte offset.
#[verifier::ext_equal]
pub struct InputView {
    pub buffer: Seq<char>,
    pub active: bool,
    pub prompt: Seq<char>,
    pub cursor: usize,
}

impl InputView {
    /// An open prompt with nothing typed yet.
    pub open spec fn started(prompt: Seq<char>) -> InputView {
        InputView { buffer: Seq::empty(), active: true, prompt, cursor: 0 }
    }
}

/// The text held by an optional string.
pub open spec fn text_of(o: Option<String>) -> Option<Seq<char>> {
    match o {
        Some(s) => Some(s@),
        None => None,
    }
}

/// The keys on which editing does not fail: an insertion needs the cursor on
/// a character boundary, and a deletion needs a character to start at the
/// byte it removes.
pub open spec fn input_key_ok(v: InputView, code: KeyCode) -> bool {
    let b = utf8(v.buffer);
    v.active ==> match code {
        KeyCode::Char(_) => is_char_boundary(b, v.cursor as int) && v.cursor < usize::MAX,
        KeyCode::Backspace => v.cursor > 0 ==> (v.cursor - 1 < b.len() && is_char_boundary(
            b,
            v.cursor - 1,
        )),
        KeyCode::Delete => v.cursor < b.len() ==> is_char_boundary(b, v.cursor as int),
        _ => true,
    }
}

/// The prompt after a key press, and the text submitted by it, if any.
pub open spec fn input_step(v: InputView, code: KeyCode) -> (InputView, Option<Seq<char>>) {
    let n = utf8(v.buffer).len();
    if !v.active {
        (v, None)
    } else {
        match code {
            KeyCode::Enter => (InputView { active: false, ..v }, Some(v.buffer)),
            KeyCode::Esc => (InputView { active: false, ..v }, None),
            KeyCode::Char(c) => (
                InputView {
                    buffer: insert_at_byte(v.buffer, v.cursor as int, c),
                    cursor: (v.cursor + 1) as usize,
                    ..v
                },
                None,
            ),
            KeyCode::Backspace => if v.cursor > 0 {
                (
                    InputView {
                        buffer: remove_at_byte(v.buffer, v.cursor - 1),
                        cursor: (v.cursor - 1) as usize,
                        ..v
                    },
                    None,
                )
            } else {
                (v, None)
            },
            KeyCode::Delete => if v.cursor < n {
                (InputView { buffer: remove_at_byte(v.buffer, v.cursor as int), ..v }, None)
            } else {
                (v, None)
            },
            KeyCode::Left => (
                InputView {
                    cursor: if v.cursor > 0 {
                        (v.cursor - 1) as usize
                    } else {
                        0
                    },
                    ..v
                },
                None,
            ),
            KeyCode::Right => (
                InputView {
                    cursor: if v.cursor < n {
                        v.cursor
                    } else {
                        n as usize
                    },
                    ..v
                },
                None,
            ),
            KeyCode::Home => (InputView { cursor: 0, ..v }, None),
            KeyCode::End => (InputView { cursor: n as usize, ..v }, None),
            _ => (v, None),
        }
    }
}

/// A one-line text prompt.
#[derive(Debug)]
pub struct TextInput {
    pub buffer: String,
    pub active: bool,
    pub prompt: String,
    /// The cursor, as a byte offset into the line.
    pub cursor_pos: usize,
}

impl View for TextInput {
    type V = InputView;

    open spec fn view(&self) -> InputView {
        InputView {
            buffer: self.buffer@,
            active: self.active,
            prompt: self.prompt@,
            cursor: self.cursor_pos,
        }
    }
}

impl TextInput {
    pub fn new() -> (r: Self)
        ensures
            r@ == (InputView { buffer: Seq::empty(), active: false, prompt: Seq::empty(), cursor: 0 }),
    {
        TextInput { buffer: String::new(), active: false, prompt: String::new(), cursor_pos: 0 }
    }

    /// Whether the prompt is open.
    pub fn is_active(&self) -> (r: bool)
        ensures
            r == self@.active,
    {
        self.active
    }

    /// The prompt text.
    pub fn prompt_text(&self) -> (r: &str)
        ensures
            r@ == self@.prompt,
    {
        self.prompt.as_str()
    }

    /// The line typed so far.
    pub fn line(&self) -> (r: &str)
        ensures
            r@ == self@.buffer,
    {
        self.buffer.as_str()
    }

    /// Opens the prompt with the given text and an empty line.
    pub fn start(&mut self, prompt: &str)
        ensures
            final(self)@ == InputView::started(prompt@),
    {
        self.buffer = String::new();
        self.active = true;
        self.prompt = String::from_str(prompt);
        self.cursor_pos = 0;
    }

    /// Whether `key` can be handled without an editing failure.
    pub fn accepts(&self, key: &KeyEvent) -> (r: bool)
        ensures
            r == input_key_ok(self@, key.code),
    {
        if !self.active {
            return true;
        }
        let s = self.buffer.as_str();
        let n: usize = self.buffer.as_str().as_bytes().len();
        match key.code {
            KeyCode::Char(_) => {
                s.is_char_boundary(self.cursor_pos) && self.cursor_pos < usize::MAX
            },
            KeyCode::Backspace => self.cursor_pos == 0 || (self.cursor_pos - 1 < n
                && s.is_char_boundary(self.cursor_pos - 1)),
            KeyCode::Delete => self.cursor_pos >= n || s.is_char_boundary(self.cursor_pos),
            _ => true,
        }
    }

    /// Edits the line or closes the prompt; `Enter` submits the line.
    pub fn handle_key(&mut self, key: KeyEvent) -> (r: Option<String>)
        requires
            input_key_ok(old(self)@, key.code),
        ensures
            (final(self)@, text_of(r)) == input_step(old(self)@, key.code),
    {
        if !self.active {
            return None;
        }
        let n: usize = self.buffer.as_str().as_bytes().len();
        match key.code {
            KeyCode::Enter => {
                let result = self.buffer.clone();
                self.active = false;
                Some(result)
            },
            KeyCode::Esc => {
                self.active = false;
                None
            },
            KeyCode::Char(c) => {
                insert_char(&mut self.buffer, self.cursor_pos, c);
                self.cursor_pos = self.cursor_pos + 1;
                None
            },
            KeyCode::Backspace => {
                if self.cursor_pos > 0 {
                    self.cursor_pos = self.cursor_pos - 1;
                    remove_char(&mut self.buffer, self.cursor_pos);
                }
                None
            },
            KeyCode::Delete => {
                if self.cursor_pos < n {
                    remove_char(&mut self.buffer, self.cursor_pos);
                }
                None
            },
            KeyCode::Left => {
                if self.cursor_pos > 0 {
                    self.cursor_pos = self.cursor_pos - 1;
                }
                None
            },
            KeyCode::Right => {
                if self.cursor_pos >= n {
                    self.cursor_pos = n;
                }
                None
            },
            KeyCode::Home => {
                self.cursor_pos = 0;
                None
            },
            KeyCode::End => {
                self.cursor_pos = n;
                None
            },
            _ => None,
        }
    }
}

} // verus!
