//! Terminal-UI application state: the message log, the input line with a
//! byte-positioned cursor over UTF-8 text, scrolling, and slash commands.
//! Drawing and terminal events live with the surrounding program.

use vstd::prelude::*;

use crate::strings::{str_eq, trim_spec};

verus! {

/// A single displayed chat message.
#[derive(Clone, Debug)]
pub struct ChatMessage {
    pub role: MessageRole,
    pub content: String,
    pub timestamp: String,
}

#[derive(Clone, Copy, Debug, PartialEq, Eq, Structural)]
pub enum MessageRole {
    User,
    Assistant,
    System,
}

/// App status.
#[derive(Clone, Copy, Debug, PartialEq, Eq, Structural)]
pub enum AppStatus {
    Idle,
    Waiting,
}

/// Slash-command result.
#[derive(Clone, Copy, Debug, PartialEq, Eq, Structural)]
pub enum SlashResult {
    Quit,
    Clear,
    Help,
    NoCommand,
}

/// How many bytes the UTF-8 encoding of one character takes.
pub open spec fn char_utf8_len(c: char) -> int {
    if (c as u32) < 0x80 {
        1
    } else if (c as u32) < 0x800 {
        2
    } else if (c as u32) < 0x10000 {
        3
    } else {
        4
    }
}

/// The UTF-8 byte length of a character sequence.
pub open spec fn bytes_len(s: Seq<char>) -> int
    decreases s.len(),
{
    if s.len() == 0 {
        0
    } else {
        bytes_len(s.drop_last()) + char_utf8_len(s.last())
    }
}

/// Byte length grows with the prefix, by at least one byte per character.
pub proof fn lemma_bytes_len_mono(s: Seq<char>, j: int, k: int)
    requires
        0 <= j <= k <= s.len(),
    ensures
        bytes_len(s.take(j)) + (k - j) <= bytes_len(s.take(k)),
        bytes_len(s.take(k)) <= bytes_len(s.take(j)) + 4 * (k - j),
    decreases k - j,
{
    if j < k {
        lemma_bytes_len_mono(s, j, k - 1);
        assert(s.take(k).drop_last() =~= s.take(k - 1));
        assert(s.take(k).last() == s[k - 1]);
    }
}

/// One more character adds its encoding length.
pub proof fn lemma_bytes_len_push(s: Seq<char>, c: char)
    ensures
        bytes_len(s.push(c)) == bytes_len(s) + char_utf8_len(c),
{
    assert(s.push(c).drop_last() =~= s);
    assert(s.push(c).last() == c);
}

/// The executable byte length of one character.
pub fn utf8_len_of(c: char) -> (n: usize)
    ensures
        n == char_utf8_len(c),
{
    let v = c as u32;
    if v < 0x80 {
        1
    } else if v < 0x800 {
        2
    } else if v < 0x10000 {
        3
    } else {
        4
    }
}

/// Core TUI application state. The input line is kept as characters; the
/// cursor is a byte offset into its UTF-8 encoding, always on a character
/// boundary.
pub struct App {
    pub messages: Vec<ChatMessage>,
    pub input: Vec<char>,
    pub cursor_pos: usize,
    pub scroll_offset: u16,
    pub status: AppStatus,
    pub should_quit: bool,
    pub provider_display: String,
    pub model_display: String,
    pub memory_display: String,
    pub spinner_tick: usize,
}

/// The character index whose byte prefix length equals `pos`.
pub open spec fn char_index_of(s: Seq<char>, pos: int) -> int {
    choose|k: int| 0 <= k <= s.len() && bytes_len(s.take(k)) == pos
}

impl App {
    /// The cursor sits on a character boundary, and the whole line's
    /// encoding fits the machine.
    pub open spec fn wf(&self) -> bool {
        &&& exists|k: int|
            0 <= k <= self.input@.len() && bytes_len(self.input@.take(k)) == self.cursor_pos as int
        &&& bytes_len(self.input@) <= usize::MAX
    }

    /// A fresh app: no messages, empty input, idle.
    pub fn new(provider: &str, model: &str, memory: &str) -> (app: App)
        ensures
            app.wf(),
            app.messages@.len() == 0,
            app.input@.len() == 0,
            app.cursor_pos == 0,
            app.scroll_offset == 0,
            app.status == AppStatus::Idle,
            !app.should_quit,
            app.provider_display@ == provider@,
            app.model_display@ == model@,
            app.memory_display@ == memory@,
            app.spinner_tick == 0,
    {
        let app = App {
            messages: Vec::new(),
            input: Vec::new(),
            cursor_pos: 0,
            scroll_offset: 0,
            status: AppStatus::Idle,
            should_quit: false,
            provider_display: provider.to_owned(),
            model_display: model.to_owned(),
            memory_display: memory.to_owned(),
            spinner_tick: 0,
        };
        proof {
            assert(app.input@.take(0) =~= Seq::<char>::empty());
            assert(bytes_len(app.input@.take(0)) == 0);
            assert(app.input@.take(0) =~= app.input@);
        }
        app
    }

    /// The character index the cursor stands at.
    fn cursor_char_index(&self) -> (k: usize)
        requires
            self.wf(),
        ensures
            k <= self.input@.len(),
            bytes_len(self.input@.take(k as int)) == self.cursor_pos as int,
            k == char_index_of(self.input@, self.cursor_pos as int),
    {
        let ghost k0 = choose|k: int|
            0 <= k <= self.input@.len() && bytes_len(self.input@.take(k)) == self.cursor_pos as int;
        let n = self.input.len();
        let mut k: usize = 0;
        let mut acc: usize = 0;
        proof {
            assert(self.input@.take(0) =~= Seq::<char>::empty());
        }
        while acc < self.cursor_pos
            invariant
                self.wf(),
                n == self.input@.len(),
                k <= k0 <= n,
                bytes_len(self.input@.take(k0)) == self.cursor_pos as int,
                acc == bytes_len(self.input@.take(k as int)),
                acc <= self.cursor_pos,
            decreases self.cursor_pos - acc,
        {
            proof {
                if k == k0 {
                    assert(acc == self.cursor_pos);
                    assert(false);
                }
                assert(k < k0);
                lemma_bytes_len_mono(self.input@, k as int + 1, k0 as int);
                lemma_bytes_len_mono(self.input@, k as int, k as int + 1);
                assert(self.input@.take(k as int + 1).drop_last() =~= self.input@.take(k as int));
                assert(self.input@.take(k as int + 1).last() == self.input@[k as int]);
            }
            let step = utf8_len_of(self.input[k]);
            acc = acc + step;
            k = k + 1;
        }
        proof {
            if k < k0 {
                lemma_bytes_len_mono(self.input@, k as int, k0 as int);
            }
            if k > k0 {
                lemma_bytes_len_mono(self.input@, k0 as int, k as int);
            }
            assert(k == k0);
            // The boundary index is unique, so it is the chosen one.
            let kc = char_index_of(self.input@, self.cursor_pos as int);
            if kc < k0 {
                lemma_bytes_len_mono(self.input@, kc, k0 as int);
            }
            if kc > k0 {
                lemma_bytes_len_mono(self.input@, k0 as int, kc);
            }
        }
        k
    }

    /// Insert a character at the cursor; the cursor moves past it.
    pub fn insert_char(&mut self, c: char)
        requires
            old(self).wf(),
            bytes_len(old(self).input@) + 4 <= usize::MAX,
        ensures
            final(self).wf(),
            final(self).input@ == old(self).input@.insert(
                char_index_of(old(self).input@, old(self).cursor_pos as int),
                c,
            ),
            final(self).cursor_pos == old(self).cursor_pos + char_utf8_len(c),
            final(self).messages@ == old(self).messages@,
            final(self).status == old(self).status,
    {
        let k = self.cursor_char_index();
        proof {
            lemma_bytes_len_mono(self.input@, k as int, self.input@.len() as int);
            assert(self.input@.take(self.input@.len() as int) =~= self.input@);
        }
        self.input.insert(k, c);
        let step = utf8_len_of(c);
        proof {
            let prev = old(self).input@;
            assert(self.input@.take(k as int + 1) =~= prev.take(k as int).push(c));
            lemma_bytes_len_push(prev.take(k as int), c);
            lemma_insert_bytes(prev, k as int, c);
            assert(bytes_len(self.input@.take(k as int + 1)) == old(self).cursor_pos
                + char_utf8_len(c));
        }
        self.cursor_pos = self.cursor_pos + step;
        proof {
            assert(bytes_len(self.input@.take(k as int + 1)) == self.cursor_pos as int);
        }
    }

    /// Delete the character before the cursor, if any.
    pub fn delete_char_before(&mut self)
        requires
            old(self).wf(),
        ensures
            final(self).wf(),
            ({
                let k = char_index_of(old(self).input@, old(self).cursor_pos as int);
                if old(self).cursor_pos == 0 {
                    final(self).input@ == old(self).input@ && final(self).cursor_pos == 0
                } else {
                    final(self).input@ == old(self).input@.remove(k - 1) && final(self).cursor_pos
                        == old(self).cursor_pos - char_utf8_len(old(self).input@[k - 1])
                }
            }),
            final(self).messages@ == old(self).messages@,
    {
        if self.cursor_pos == 0 {
            return ;
        }
        let k = self.cursor_char_index();
        proof {
            if k == 0 {
                assert(self.input@.take(0) =~= Seq::<char>::empty());
                assert(false);
            }
            assert(self.input@.take(k as int).drop_last() =~= self.input@.take(k as int - 1));
            assert(self.input@.take(k as int).last() == self.input@[k as int - 1]);
            lemma_bytes_len_mono(self.input@, 0, k as int - 1);
            assert(self.input@.take(0) =~= Seq::<char>::empty());
            lemma_remove_bytes(self.input@, k as int - 1);
        }
        let step = utf8_len_of(self.input[k - 1]);
        self.input.remove(k - 1);
        self.cursor_pos = self.cursor_pos - step;
        proof {
            let prev = old(self).input@;
            assert(self.input@.take(k as int - 1) =~= prev.take(k as int - 1));
            lemma_bytes_len_mono(prev, 0, prev.len() as int);
            assert(prev.take(prev.len() as int) =~= prev);
            assert(bytes_len(self.input@.take(k as int - 1)) == self.cursor_pos as int);
        }
    }

    /// Delete the character after the cursor, if any.
    pub fn delete_char_after(&mut self)
        requires
            old(self).wf(),
        ensures
            final(self).wf(),
            ({
                let k = char_index_of(old(self).input@, old(self).cursor_pos as int);
                if k < old(self).input@.len() {
                    final(self).input@ == old(self).input@.remove(k)
                } else {
                    final(self).input@ == old(self).input@
                }
            }),
            final(self).cursor_pos == old(self).cursor_pos,
            final(self).messages@ == old(self).messages@,
    {
        let k = self.cursor_char_index();
        if k < self.input.len() {
            proof {
                lemma_remove_bytes(self.input@, k as int);
            }
            self.input.remove(k);
            proof {
                assert(self.input@.take(k as int) =~= old(self).input@.take(k as int));
            }
        }
    }

    /// Move the cursor one character left.
    pub fn move_cursor_left(&mut self)
        requires
            old(self).wf(),
        ensures
            final(self).wf(),
            final(self).input@ == old(self).input@,
            ({
                let k = char_index_of(old(self).input@, old(self).cursor_pos as int);
                if old(self).cursor_pos == 0 {
                    final(self).cursor_pos == 0
                } else {
                    final(self).cursor_pos == old(self).cursor_pos - char_utf8_len(
                        old(self).input@[k - 1],
                    )
                }
            }),
            final(self).messages@ == old(self).messages@,
    {
        if self.cursor_pos == 0 {
            return ;
        }
        let k = self.cursor_char_index();
        proof {
            if k == 0 {
                assert(self.input@.take(0) =~= Seq::<char>::empty());
                assert(false);
            }
            assert(self.input@.take(k as int).drop_last() =~= self.input@.take(k as int - 1));
            assert(self.input@.take(k as int).last() == self.input@[k as int - 1]);
            lemma_bytes_len_mono(self.input@, 0, k as int - 1);
            assert(self.input@.take(0) =~= Seq::<char>::empty());
        }
        let step = utf8_len_of(self.input[k - 1]);
        self.cursor_pos = self.cursor_pos - step;
        proof {
            assert(bytes_len(self.input@.take(k as int - 1)) == self.cursor_pos as int);
        }
    }

    /// Move the cursor one character right.
    pub fn move_cursor_right(&mut self)
        requires
            old(self).wf(),
        ensures
            final(self).wf(),
            final(self).input@ == old(self).input@,
            ({
                let k = char_index_of(old(self).input@, old(self).cursor_pos as int);
                if k < old(self).input@.len() {
                    final(self).cursor_pos == old(self).cursor_pos + char_utf8_len(
                        old(self).input@[k],
                    )
                } else {
                    final(self).cursor_pos == old(self).cursor_pos
                }
            }),
            final(self).messages@ == old(self).messages@,
    {
        let k = self.cursor_char_index();
        if k < self.input.len() {
            proof {
                lemma_bytes_len_mono(self.input@, k as int + 1, self.input@.len() as int);
                assert(self.input@.take(self.input@.len() as int) =~= self.input@);
                assert(self.input@.take(k as int + 1).drop_last() =~= self.input@.take(k as int));
                assert(self.input@.take(k as int + 1).last() == self.input@[k as int]);
            }
            let step = utf8_len_of(self.input[k]);
            proof {
                assert(bytes_len(self.input@.take(k as int + 1)) == self.cursor_pos + step);
                assert(bytes_len(self.input@.take(k as int + 1)) <= bytes_len(self.input@));
            }
            self.cursor_pos = self.cursor_pos + step;
            proof {
                assert(bytes_len(self.input@.take(k as int + 1)) == self.cursor_pos as int);
            }
        }
    }

    /// Move the cursor to the start of the line.
    pub fn move_cursor_home(&mut self)
        requires
            old(self).wf(),
        ensures
            final(self).wf(),
            final(self).input@ == old(self).input@,
            final(self).cursor_pos == 0,
            final(self).messages@ == old(self).messages@,
    {
        self.cursor_pos = 0;
        proof {
            assert(self.input@.take(0) =~= Seq::<char>::empty());
        }
    }

    /// Move the cursor past the last character.
    pub fn move_cursor_end(&mut self)
        requires
            old(self).wf(),
        ensures
            final(self).wf(),
            final(self).input@ == old(self).input@,
            final(self).cursor_pos == bytes_len(old(self).input@),
            final(self).messages@ == old(self).messages@,
    {
        let n = self.input.len();
        let mut acc: usize = 0;
        let mut k: usize = 0;
        proof {
            assert(self.input@.take(0) =~= Seq::<char>::empty());
            lemma_bytes_len_mono(self.input@, 0, self.input@.len() as int);
            assert(self.input@.take(self.input@.len() as int) =~= self.input@);
        }
        while k < n
            invariant
                self.wf(),
                n == self.input@.len(),
                k <= n,
                acc == bytes_len(self.input@.take(k as int)),
                bytes_len(self.input@) <= usize::MAX,
            decreases n - k,
        {
            proof {
                lemma_bytes_len_mono(self.input@, k as int + 1, n as int);
                lemma_bytes_len_mono(self.input@, k as int, k as int + 1);
                assert(self.input@.take(n as int) =~= self.input@);
                assert(self.input@.take(k as int + 1).drop_last() =~= self.input@.take(k as int));
                assert(self.input@.take(k as int + 1).last() == self.input@[k as int]);
            }
            let step = utf8_len_of(self.input[k]);
            acc = acc + step;
            k = k + 1;
        }
        proof {
            assert(self.input@.take(n as int) =~= self.input@);
        }
        self.cursor_pos = acc;
        proof {
            assert(bytes_len(self.input@.take(n as int)) == self.cursor_pos as int);
        }
    }

    /// Submit the current input: the trimmed text is returned, the input
    /// line is cleared and the cursor reset.
    pub fn submit_input(&mut self) -> (text: String)
        requires
            old(self).wf(),
        ensures
            final(self).wf(),
            text@ == trim_spec(old(self).input@),
            final(self).input@.len() == 0,
            final(self).cursor_pos == 0,
            final(self).messages@ == old(self).messages@,
    {
        let trimmed = crate::strings::trim_chars(&self.input);
        let text = crate::strings::chars_to_string(&trimmed);
        self.input = Vec::new();
        self.cursor_pos = 0;
        proof {
            assert(self.input@.take(0) =~= Seq::<char>::empty());
        }
        text
    }

    /// Handle slash commands.
    pub fn handle_slash_command(input: &str) -> (r: SlashResult)
        ensures
            r == SlashResult::Quit <==> (input@ == "/quit"@ || input@ == "/exit"@ || input@
                == "/q"@),
            r == SlashResult::Clear <==> (input@ == "/clear"@ || input@ == "/cls"@),
            r == SlashResult::Help <==> (input@ == "/help"@ || input@ == "/h"@ || input@ == "/?"@),
    {
        proof {
            reveal_strlit("/quit");
            reveal_strlit("/exit");
            reveal_strlit("/q");
            reveal_strlit("/clear");
            reveal_strlit("/cls");
            reveal_strlit("/help");
            reveal_strlit("/h");
            reveal_strlit("/?");
            assert("/quit"@.len() == 5 && "/exit"@.len() == 5 && "/q"@.len() == 2);
            assert("/clear"@.len() == 6 && "/cls"@.len() == 4);
            assert("/help"@.len() == 5 && "/h"@.len() == 2 && "/?"@.len() == 2);
            assert("/quit"@[1] == 'q' && "/exit"@[1] == 'e' && "/help"@[1] == 'h');
            assert("/q"@[1] == 'q' && "/h"@[1] == 'h' && "/?"@[1] == '?');
        }
        if str_eq(input, "/quit") || str_eq(input, "/exit") || str_eq(input, "/q") {
            SlashResult::Quit
        } else if str_eq(input, "/clear") || str_eq(input, "/cls") {
            SlashResult::Clear
        } else if str_eq(input, "/help") || str_eq(input, "/h") || str_eq(input, "/?") {
            SlashResult::Help
        } else {
            SlashResult::NoCommand
        }
    }

    /// Scroll up, saturating.
    pub fn scroll_up(&mut self, amount: u16)
        requires
            old(self).wf(),
        ensures
            final(self).wf(),
            final(self).scroll_offset == vstd::math::min(
                old(self).scroll_offset + amount,
                u16::MAX as int,
            ),
            final(self).input@ == old(self).input@,
            final(self).cursor_pos == old(self).cursor_pos,
            final(self).messages@ == old(self).messages@,
            final(self).status == old(self).status,
            final(self).should_quit == old(self).should_quit,
            final(self).spinner_tick == old(self).spinner_tick,
    {
        if self.scroll_offset > u16::MAX - amount {
            self.scroll_offset = u16::MAX;
        } else {
            self.scroll_offset = self.scroll_offset + amount;
        }
        proof {
            let k0 = choose|k: int|
                0 <= k <= old(self).input@.len() && bytes_len(old(self).input@.take(k)) == old(
                    self,
                ).cursor_pos as int;
            assert(bytes_len(self.input@.take(k0)) == self.cursor_pos as int);
        }
    }

    /// Scroll down, saturating at the bottom.
    pub fn scroll_down(&mut self, amount: u16)
        requires
            old(self).wf(),
        ensures
            final(self).wf(),
            final(self).scroll_offset == vstd::math::max(
                old(self).scroll_offset - amount,
                0,
            ),
            final(self).input@ == old(self).input@,
            final(self).cursor_pos == old(self).cursor_pos,
            final(self).messages@ == old(self).messages@,
            final(self).status == old(self).status,
            final(self).should_quit == old(self).should_quit,
            final(self).spinner_tick == old(self).spinner_tick,
    {
        if amount > self.scroll_offset {
            self.scroll_offset = 0;
        } else {
            self.scroll_offset = self.scroll_offset - amount;
        }
        proof {
            let k0 = choose|k: int|
                0 <= k <= old(self).input@.len() && bytes_len(old(self).input@.take(k)) == old(
                    self,
                ).cursor_pos as int;
            assert(bytes_len(self.input@.take(k0)) == self.cursor_pos as int);
        }
    }

    /// The current spinner frame.
    pub fn spinner_char(&self) -> (c: char)
        ensures
            c == spinner_frame(self.spinner_tick as int),
    {
        let r = self.spinner_tick % 4;
        if r == 0 {
            '|'
        } else if r == 1 {
            '/'
        } else if r == 2 {
            '-'
        } else {
            '\\'
        }
    }

    /// Advance the spinner, wrapping around.
    pub fn tick_spinner(&mut self)
        requires
            old(self).wf(),
        ensures
            final(self).wf(),
            final(self).spinner_tick == if old(self).spinner_tick == usize::MAX {
                0int
            } else {
                old(self).spinner_tick + 1
            },
            final(self).input@ == old(self).input@,
            final(self).cursor_pos == old(self).cursor_pos,
    {
        if self.spinner_tick == usize::MAX {
            self.spinner_tick = 0;
        } else {
            self.spinner_tick = self.spinner_tick + 1;
        }
        proof {
            let k0 = choose|k: int|
                0 <= k <= old(self).input@.len() && bytes_len(old(self).input@.take(k)) == old(
                    self,
                ).cursor_pos as int;
            assert(bytes_len(self.input@.take(k0)) == self.cursor_pos as int);
        }
    }

    /// Append a message to the log; the view scrolls back to the bottom.
    /// The timestamp is the wall clock's `HH:MM:SS`.
    pub fn push_message(&mut self, role: MessageRole, content: &str)
        requires
            old(self).wf(),
        ensures
            final(self).wf(),
            final(self).messages@.len() == old(self).messages@.len() + 1,
            final(self).messages@.last().role == role,
            final(self).messages@.last().content@ == content@,
            final(self).scroll_offset == 0,
            final(self).input@ == old(self).input@,
            final(self).cursor_pos == old(self).cursor_pos,
    {
        let timestamp = crate::clock::now_clock_text();
        self.messages.push(ChatMessage { role, content: content.to_owned(), timestamp });
        self.scroll_offset = 0;
        proof {
            let k0 = choose|k: int|
                0 <= k <= old(self).input@.len() && bytes_len(old(self).input@.take(k)) == old(
                    self,
                ).cursor_pos as int;
            assert(bytes_len(self.input@.take(k0)) == self.cursor_pos as int);
        }
    }
}

/// The spinner frame for a tick count.
pub open spec fn spinner_frame(tick: int) -> char {
    let r = tick % 4;
    if r == 0 {
        '|'
    } else if r == 1 {
        '/'
    } else if r == 2 {
        '-'
    } else {
        '\\'
    }
}

/// Inserting a character at a boundary keeps prefix byte lengths: the
/// prefixes up to the insertion point are unchanged, and the one just past
/// it grows by the character's length.
proof fn lemma_insert_bytes(s: Seq<char>, k: int, c: char)
    requires
        0 <= k <= s.len(),
    ensures
        s.insert(k, c).take(k) == s.take(k),
        s.insert(k, c).take(k + 1) == s.take(k).push(c),
        bytes_len(s.insert(k, c)) == bytes_len(s) + char_utf8_len(c),
    decreases s.len() - k,
{
    assert(s.insert(k, c).take(k) =~= s.take(k));
    assert(s.insert(k, c).take(k + 1) =~= s.take(k).push(c));
    lemma_bytes_len_concat(s.take(k).push(c), s.skip(k));
    lemma_bytes_len_concat(s.take(k), s.skip(k));
    assert(s.insert(k, c) =~= s.take(k).push(c) + s.skip(k));
    assert(s =~= s.take(k) + s.skip(k));
    lemma_bytes_len_push(s.take(k), c);
}

/// Removing one character shrinks the byte length by its encoding.
proof fn lemma_remove_bytes(s: Seq<char>, k: int)
    requires
        0 <= k < s.len(),
    ensures
        bytes_len(s.remove(k)) == bytes_len(s) - char_utf8_len(s[k]),
        s.remove(k).take(k) == s.take(k),
{
    assert(s.remove(k).take(k) =~= s.take(k));
    assert(s.remove(k) =~= s.take(k) + s.skip(k + 1));
    assert(s =~= s.take(k + 1) + s.skip(k + 1));
    lemma_bytes_len_concat(s.take(k), s.skip(k + 1));
    lemma_bytes_len_concat(s.take(k + 1), s.skip(k + 1));
    assert(s.take(k + 1).drop_last() =~= s.take(k));
    assert(s.take(k + 1).last() == s[k]);
}

/// Byte length distributes over concatenation.
proof fn lemma_bytes_len_concat(a: Seq<char>, b: Seq<char>)
    ensures
        bytes_len(a + b) == bytes_len(a) + bytes_len(b),
    decreases b.len(),
{
    if b.len() == 0 {
        assert(a + b =~= a);
    } else {
        assert((a + b).drop_last() =~= a + b.drop_last());
        assert((a + b).last() == b.last());
        lemma_bytes_len_concat(a, b.drop_last());
    }
}

} // verus!
