//! The window a web page is shown in: its size, what it does with events, and
//! how messages are handed to the page.

use vstd::prelude::*;

verus! {

/// What the page is made of.
#[derive(Clone, Copy, Debug)]
pub enum HTMLSource {
    String(&'static str),
    URL(&'static str),
}

/// A window as it is set up.
#[derive(Clone, Copy, Debug)]
pub struct WebViewEditor {
    pub source: HTMLSource,
    pub width: u32,
    pub height: u32,
    pub developer_mode: bool,
    /// Behind the page, as red, green, blue and opacity.
    pub background_color: (u8, u8, u8, u8),
}

impl WebViewEditor {
    /// A window of some size over a white background.
    pub fn new(source: HTMLSource, size: (u32, u32)) -> (r: WebViewEditor)
        ensures
            r == (WebViewEditor {
                source,
                width: size.0,
                height: size.1,
                developer_mode: false,
                background_color: (255, 255, 255, 255),
            }),
    {
        WebViewEditor {
            source,
            width: size.0,
            height: size.1,
            developer_mode: false,
            background_color: (255, 255, 255, 255),
        }
    }

    pub fn with_background_color(self, background_color: (u8, u8, u8, u8)) -> (r: WebViewEditor)
        ensures
            r == (WebViewEditor { background_color, ..self }),
    {
        WebViewEditor { background_color, ..self }
    }

    pub fn with_developer_mode(self, mode: bool) -> (r: WebViewEditor)
        ensures
            r == (WebViewEditor { developer_mode: mode, ..self }),
    {
        WebViewEditor { developer_mode: mode, ..self }
    }

    pub fn size(&self) -> (r: (u32, u32))
        ensures
            r == (self.width, self.height),
    {
        (self.width, self.height)
    }

    /// Ask for a new size, in logical pixels. The answer is whether the host has
    /// to be asked: a drag sends one of these a frame, and most of them ask for
    /// the size the window already has.
    pub fn resize(&mut self, width: u32, height: u32) -> (r: bool)
        ensures
            *final(self) == (WebViewEditor { width, height, ..*old(self) }),
            r == (old(self).width != width || old(self).height != height),
    {
        if self.width == width && self.height == height {
            return false;
        }
        self.width = width;
        self.height = height;
        true
    }
}

/// What became of an event.
#[derive(Clone, Copy, Debug, PartialEq, Eq, Structural)]
pub enum Status {
    Captured,
    Ignored,
}

/// An event of the window, and what its handler made of it.
#[derive(Clone, Copy, Debug, PartialEq, Eq, Structural)]
pub enum WindowEvent {
    /// A key, and whether it was handled.
    Keyboard(bool),
    Mouse(Status),
    /// The window has settled at a new size.
    Resized,
    Other,
}

/// What the window does with an event: what it reports, and whether the page is
/// stretched over the window, at the size the window now is.
pub fn on_event(event: WindowEvent) -> (r: (Status, bool))
    ensures
        r.0 == (match event {
            WindowEvent::Keyboard(true) => Status::Captured,
            WindowEvent::Mouse(status) => status,
            _ => Status::Ignored,
        }),
        r.1 == (event is Resized),
{
    match event {
        WindowEvent::Keyboard(handled) => (
            if handled {
                Status::Captured
            } else {
                Status::Ignored
            },
            false,
        ),
        WindowEvent::Mouse(status) => (status, false),
        WindowEvent::Resized => (Status::Ignored, true),
        WindowEvent::Other => (Status::Ignored, false),
    }
}

/// Whom the next message in the queue is for.
#[derive(Clone, Copy, Debug, PartialEq, Eq, Structural)]
pub enum Recipient {
    /// The thread itself, and no window.
    Thread,
    /// Our own window, or one inside it.
    Ours,
    /// Some other window.
    Foreign,
}

/// How the message just looked at is taken out of the queue.
#[derive(Clone, Copy, Debug, PartialEq, Eq, Structural)]
pub enum Filter {
    ThreadMessages,
    ItsWindow,
}

/// How many messages one frame will pass on at most, so a storm of them cannot
/// hold the frame hostage.
pub const MOST_MESSAGES: u32 = 64;

/// Passing on the messages nobody else on this thread will.
#[derive(Debug)]
pub struct Pump {
    left: u32,
}

impl View for Pump {
    type V = nat;

    closed spec fn view(&self) -> nat {
        self.left as nat
    }
}

impl Pump {
    /// A frame that has passed on nothing yet.
    pub fn new() -> (r: Pump)
        ensures
            r@ == MOST_MESSAGES,
    {
        Pump { left: MOST_MESSAGES }
    }

    /// What to do about the next message, if there is one: take it out and pass it
    /// on, or stop. A message for our own window is left where it is, and stops
    /// the pump: looking past it would mean removing it.
    pub fn next(&mut self, found: Option<Recipient>) -> (r: Option<Filter>)
        ensures
            r == (if old(self)@ == 0 {
                None
            } else {
                match found {
                    Some(Recipient::Thread) => Some(Filter::ThreadMessages),
                    Some(Recipient::Foreign) => Some(Filter::ItsWindow),
                    _ => None,
                }
            }),
            final(self)@ == (if r is Some {
                (old(self)@ - 1) as nat
            } else {
                old(self)@
            }),
    {
        if self.left == 0 {
            return None;
        }
        let filter: Filter = match found {
            Some(Recipient::Thread) => Filter::ThreadMessages,
            Some(Recipient::Foreign) => Filter::ItsWindow,
            _ => {
                return None;
            },
        };
        self.left = self.left - 1;
        Some(filter)
    }
}

/// One hexadecimal digit, in lower case.
pub open spec fn hex_digit(d: int) -> char {
    if d < 10 {
        ('0' as int + d) as char
    } else {
        ('a' as int + d - 10) as char
    }
}

/// A character as it stands in a JSON string.
pub open spec fn escape(c: char) -> Seq<char> {
    if c == '"' {
        seq!['\\', '"']
    } else if c == '\\' {
        seq!['\\', '\\']
    } else if c == '\u{8}' {
        seq!['\\', 'b']
    } else if c == '\u{9}' {
        seq!['\\', 't']
    } else if c == '\u{a}' {
        seq!['\\', 'n']
    } else if c == '\u{c}' {
        seq!['\\', 'f']
    } else if c == '\u{d}' {
        seq!['\\', 'r']
    } else if (c as int) < 0x20 {
        seq!['\\', 'u', '0', '0', hex_digit(c as int / 16), hex_digit(c as int % 16)]
    } else {
        seq![c]
    }
}

/// The characters of a string as they stand in a JSON string.
pub open spec fn escaped(s: Seq<char>) -> Seq<char>
    decreases s.len(),
{
    if s.len() == 0 {
        Seq::empty()
    } else {
        escape(s[0]) + escaped(s.drop_first())
    }
}

/// A string as a JSON string: between quotation marks, with the quotation mark,
/// the backslash and the control characters below the space escaped.
pub open spec fn quoted(s: Seq<char>) -> Seq<char> {
    seq!['"'] + escaped(s) + seq!['"']
}

/// Calls `serde_json::to_string` on a string, which never fails there: the
/// result is the string between quotation marks, each character that JSON does
/// not let stand written as its escape.
#[verifier::external_body]
fn quote(text: &str) -> (r: String)
    ensures
        r@ == quoted(text@),
{
    serde_json::to_string(text).expect("a string always serialises")
}

/// The script that hands a message to the page, given the message as JSON text.
pub fn message_script(json: &str) -> (r: String)
    ensures
        r@ == "onPluginMessageInternal("@ + quoted(json@) + ");"@,
{
    let mut script: String = "onPluginMessageInternal(".to_owned();
    let argument: String = quote(json);
    script.append(argument.as_str());
    script.append(");");
    script
}

proof fn lemma_an_escape_is_one_line(c: char, k: int)
    requires
        0 <= k < escape(c).len(),
    ensures
        escape(c)[k] as int >= 0x20,
{
}

proof fn lemma_an_escape_tells(c: char, d: char, x: Seq<char>, y: Seq<char>)
    requires
        escape(c) + x == escape(d) + y,
    ensures
        c == d,
        x == y,
{
    let l = escape(c) + x;
    let r = escape(d) + y;
    assert(l[0] == escape(c)[0]);
    assert(r[0] == escape(d)[0]);
    if escape(c).len() > 1 && escape(d).len() > 1 {
        assert(l[1] == escape(c)[1]);
        assert(r[1] == escape(d)[1]);
        if escape(c).len() == 6 && escape(d).len() == 6 {
            assert(l[4] == escape(c)[4] && l[5] == escape(c)[5]);
            assert(r[4] == escape(d)[4] && r[5] == escape(d)[5]);
        }
    }
    assert(c == d);
    let n = escape(c).len() as int;
    assert(l.skip(n) =~= x);
    assert(r.skip(n) =~= y);
}

proof fn lemma_escaping_tells(a: Seq<char>, b: Seq<char>)
    requires
        escaped(a) == escaped(b),
    ensures
        a == b,
    decreases a.len(),
{
    if a.len() == 0 {
        if b.len() > 0 {
            assert(escaped(b).len() > 0);
        }
        assert(a =~= b);
    } else if b.len() == 0 {
        assert(escaped(a).len() > 0);
    } else {
        lemma_an_escape_tells(a[0], b[0], escaped(a.drop_first()), escaped(b.drop_first()));
        lemma_escaping_tells(a.drop_first(), b.drop_first());
        assert(a =~= seq![a[0]] + a.drop_first());
        assert(b =~= seq![b[0]] + b.drop_first());
    }
}

/// Two messages that make the same script are the same message.
pub proof fn a_script_tells_its_message(a: Seq<char>, b: Seq<char>)
    requires
        "onPluginMessageInternal("@ + quoted(a) + ");"@ == "onPluginMessageInternal("@ + quoted(b)
            + ");"@,
    ensures
        a == b,
{
    let head = "onPluginMessageInternal("@;
    let tail = ");"@;
    let l = head + quoted(a) + tail;
    let r = head + quoted(b) + tail;
    assert(l.len() == r.len());
    let from = head.len() as int + 1;
    let to = l.len() - tail.len() - 1;
    assert(l.subrange(from, to) =~= escaped(a));
    assert(r.subrange(from, to) =~= escaped(b));
    lemma_escaping_tells(a, b);
}

/// However many lines a message has, the script's argument is one: no line
/// break or other control character is left in it.
pub proof fn an_argument_is_one_line(s: Seq<char>, k: int)
    requires
        0 <= k < quoted(s).len(),
    ensures
        quoted(s)[k] as int >= 0x20,
{
    if 0 < k < quoted(s).len() - 1 {
        lemma_escaped_is_one_line(s, k - 1);
    }
}

proof fn lemma_escaped_is_one_line(s: Seq<char>, k: int)
    requires
        0 <= k < escaped(s).len(),
    ensures
        escaped(s)[k] as int >= 0x20,
    decreases s.len(),
{
    let n = escape(s[0]).len() as int;
    if k < n {
        lemma_an_escape_is_one_line(s[0], k);
    } else {
        lemma_escaped_is_one_line(s.drop_first(), k - n);
    }
}

} // verus!
