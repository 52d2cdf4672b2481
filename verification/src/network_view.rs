//! The state behind a network view: a port field that takes nothing but port
//! numbers.

use crate::ui::NetUIMessage;
use vstd::prelude::*;
use vstd::string::*;
use vstd::utf8::*;

verus! {

/// The byte of the plus sign.
pub const PLUS: u8 = 43;

/// The byte of the digit zero.
pub const ZERO: u8 = 48;

/// The byte of the digit nine.
pub const NINE: u8 = 57;

/// Whether `b` is the byte of a decimal digit.
pub open spec fn is_digit(b: u8) -> bool {
    ZERO <= b <= NINE
}

/// Whether `s` holds decimal digits only.
pub open spec fn all_digits(s: Seq<u8>) -> bool {
    forall|i: int| 0 <= i < s.len() ==> is_digit(#[trigger] s[i])
}

/// The number that the decimal digits `s` write.
pub open spec fn digits_value(s: Seq<u8>) -> nat
    decreases s.len(),
{
    if s.len() == 0 {
        0
    } else {
        digits_value(s.drop_last()) * 10 + (s.last() - ZERO) as nat
    }
}

/// The port number that the bytes of a text write: an optional plus sign
/// and then at least one digit and nothing but digits, which together write a
/// number of at most 65535.
pub open spec fn parsed_port(s: Seq<u8>) -> Option<u16> {
    if s.len() > 0 && s[0] == PLUS {
        port_of_digits(s.drop_first())
    } else {
        port_of_digits(s)
    }
}

/// The port number that the digits `body` write, if they write one.
pub open spec fn port_of_digits(body: Seq<u8>) -> Option<u16> {
    if body.len() > 0 && all_digits(body) && digits_value(body) <= u16::MAX {
        Some(digits_value(body) as u16)
    } else {
        None
    }
}

/// More digits never write a smaller number.
pub proof fn lemma_digits_value_grows(s: Seq<u8>, k: int)
    requires
        all_digits(s),
        0 <= k <= s.len(),
    ensures
        digits_value(s.subrange(0, k)) <= digits_value(s),
    decreases s.len() - k,
{
    if k < s.len() {
        let front = s.drop_last();
        if k == s.len() - 1 {
            assert(s.subrange(0, k) =~= front);
        } else {
            assert(all_digits(front)) by {
                assert forall|i: int| 0 <= i < front.len() implies is_digit(
                    #[trigger] front[i],
                ) by {
                    assert(front[i] == s[i]);
                }
            }
            lemma_digits_value_grows(front, k);
            assert(front.subrange(0, k) =~= s.subrange(0, k));
        }
        assert(is_digit(s[s.len() - 1]));
    } else {
        assert(s.subrange(0, k) =~= s);
    }
}

/// One more digit behind digits: the digits stay digits and write ten times
/// the number and the new digit.
pub proof fn lemma_digits_push(read: Seq<u8>, b: u8)
    requires
        all_digits(read),
        is_digit(b),
    ensures
        all_digits(read.push(b)),
        digits_value(read.push(b)) == digits_value(read) * 10 + (b - ZERO),
{
    let longer = read.push(b);
    assert(longer.drop_last() =~= read);
    assert forall|j: int| 0 <= j < longer.len() implies is_digit(#[trigger] longer[j]) by {
        if j < read.len() {
            assert(longer[j] == read[j]);
        }
    }
}

/// Reads a port number from a text; `None` where the text writes none.
pub fn parse_port(text: &str) -> (port: Option<u16>)
    ensures
        port == parsed_port(encode_utf8(text@)),
{
    let bytes = text.as_bytes();
    let n: usize = bytes.len();
    let start: usize = if n > 0 && bytes[0] == PLUS {
        1
    } else {
        0
    };
    let ghost body = bytes@.subrange(start as int, n as int);
    let ghost wanted = parsed_port(bytes@);
    proof {
        if start == 1 {
            assert(body =~= bytes@.drop_first());
        } else {
            assert(body =~= bytes@);
        }
        assert(wanted == port_of_digits(body));
    }
    if start == n {
        return None;
    }
    let mut value: u32 = 0;
    let mut i: usize = start;
    let ghost mut read = Seq::<u8>::empty();
    while i < n
        invariant
            start <= i <= n,
            n == bytes@.len(),
            body.len() == n - start,
            forall|j: int| 0 <= j < body.len() ==> #[trigger] body[j] == bytes@[start + j],
            wanted == port_of_digits(body),
            wanted == parsed_port(encode_utf8(text@)),
            read =~= body.subrange(0, i - start),
            all_digits(read),
            value == digits_value(read),
            value <= u16::MAX,
        decreases n - i,
    {
        let b: u8 = bytes[i];
        proof {
            assert(body[i - start] == b);
        }
        if b < ZERO || b > NINE {
            proof {
                assert(!is_digit(body[i - start]));
            }
            return None;
        }
        proof {
            lemma_digits_push(read, b);
        }
        let next: u32 = value * 10 + (b - ZERO) as u32;
        proof {
            read = read.push(b);
            assert(read =~= body.subrange(0, i + 1 - start));
        }
        if next > 65535 {
            proof {
                if all_digits(body) {
                    lemma_digits_value_grows(body, i + 1 - start);
                }
            }
            return None;
        }
        value = next;
        i = i + 1;
    }
    proof {
        assert(read =~= body);
    }
    Some(value as u16)
}

/// The state of the view before the network has been started.
pub struct StartupState {
    port_number_value: String,
}

impl StartupState {
    /// What the port field shows.
    pub closed spec fn shown(&self) -> String {
        self.port_number_value
    }

    /// Whether `after` is what the port field shows once `typed` has been
    /// typed over `before`: a text that writes a port number is replaced by
    /// that number as it is usually written, an empty text is taken as it is,
    /// and any other text is not taken at all.
    pub open spec fn typed_over(before: String, typed: String, after: String) -> bool {
        match parsed_port(encode_utf8(typed@)) {
            Some(port) => to_string_from_display_ensures::<u16>(&port, after),
            None => after@ == if typed@.len() == 0 {
                typed@
            } else {
                before@
            },
        }
    }

    /// A view with an empty port field.
    pub fn new() -> (state: StartupState)
        ensures
            state.shown()@ == Seq::<char>::empty(),
    {
        StartupState { port_number_value: String::new() }
    }

    /// What the port field shows.
    pub fn port_number_value(&self) -> (shown: &String)
        ensures
            *shown == self.shown(),
    {
        &self.port_number_value
    }

    /// Takes a message of the view's widgets.
    pub fn update(&mut self, message: NetUIMessage)
        ensures
            match message {
                NetUIMessage::PortNumberUpdated(typed) => StartupState::typed_over(
                    old(self).shown(),
                    typed,
                    final(self).shown(),
                ),
                NetUIMessage::StartNetwork => final(self).shown() == old(self).shown(),
            },
    {
        match message {
            NetUIMessage::PortNumberUpdated(val) => {
                match parse_port(val.as_str()) {
                    Some(num) => {
                        self.port_number_value = num.to_string();
                    },
                    None => {
                        if val.as_str().is_empty() {
                            self.port_number_value = val;
                        }
                    },
                }
            },
            NetUIMessage::StartNetwork => {},
        }
    }
}

/// The state of the view once the network runs; it has nothing to hold.
pub struct RunningState {}

/// The network view.
pub enum NetUI {
    Startup(StartupState),
    Running(RunningState),
}

/// Whether `after` is the view once `before` has taken `message`: before the
/// network has been started the port field takes what is typed, and nothing
/// else changes anything.
pub open spec fn net_update(before: NetUI, message: NetUIMessage, after: NetUI) -> bool {
    match (before, message) {
        (NetUI::Startup(was), NetUIMessage::PortNumberUpdated(typed)) => {
            after matches NetUI::Startup(is) && StartupState::typed_over(
                was.shown(),
                typed,
                is.shown(),
            )
        },
        _ => after == before,
    }
}

impl NetUI {
    /// The view as it starts: with an empty port field.
    pub fn new() -> (ui: NetUI)
        ensures
            ui matches NetUI::Startup(state) && state.shown()@ == Seq::<char>::empty(),
    {
        NetUI::Startup(StartupState::new())
    }

    /// Takes a message of the view's widgets: before the network has been
    /// started the port field takes it, afterwards nothing does.
    pub fn update(&mut self, message: NetUIMessage)
        ensures
            net_update(*old(self), message, *final(self)),
    {
        match self {
            NetUI::Startup(startup) => startup.update(message),
            NetUI::Running(_) => {},
        }
    }
}

} // verus!
