//! Commands for the idle daemon and their two wire encodings.
use vstd::prelude::*;

verus! {

/// A control command understood by the idle daemon.
#[derive(Clone, Copy, Debug, PartialEq, Eq, Structural)]
pub enum Command {
    /// Stop the daemon's idle timers.
    Disable,
    /// Resume the daemon's idle timers.
    Enable,
    /// Fire the daemon's idle action now.
    TriggerNow,
}

/// Which of the daemon's timers a control message applies to.
#[derive(Clone, Copy, Debug, PartialEq, Eq, Structural)]
pub enum Filter {
    All,
}

impl Default for Filter {
    fn default() -> (r: Self)
        ensures
            r == Filter::All,
    {
        Filter::All
    }
}

/// The action field of a structured control message.
#[derive(Clone, Copy, Debug, PartialEq, Eq, Structural)]
pub enum Action {
    Disable,
    Enable,
    Trigger,
}

/// The body of a structured control message.
#[derive(Clone, Copy, Debug, PartialEq, Eq, Structural)]
pub struct Control {
    pub timer: Filter,
    pub action: Action,
}

/// A structured message; control messages are the only kind a client sends.
#[derive(Clone, Copy, Debug, PartialEq, Eq, Structural)]
pub enum Message {
    Control(Control),
}

/// The wire format that the daemon speaks.
#[derive(Clone, Copy, Debug, PartialEq, Eq, Structural)]
pub enum Protocol {
    /// One byte per command.
    Legacy,
    /// One newline-terminated record per command.
    Structured,
}

impl Command {
    pub open spec fn spec_action(self) -> Action {
        match self {
            Command::Disable => Action::Disable,
            Command::Enable => Action::Enable,
            Command::TriggerNow => Action::Trigger,
        }
    }

    /// The action field that carries this command.
    pub fn action(self) -> (r: Action)
        ensures
            r == self.spec_action(),
    {
        match self {
            Command::Disable => Action::Disable,
            Command::Enable => Action::Enable,
            Command::TriggerNow => Action::Trigger,
        }
    }

    pub open spec fn spec_legacy_byte(self) -> u8 {
        match self {
            Command::Disable => 0,
            Command::Enable => 1,
            Command::TriggerNow => 2,
        }
    }

    /// The single byte that carries this command in the legacy protocol.
    pub fn legacy_byte(self) -> (r: u8)
        ensures
            r == self.spec_legacy_byte(),
    {
        match self {
            Command::Disable => 0,
            Command::Enable => 1,
            Command::TriggerNow => 2,
        }
    }

    /// The command that a legacy byte carries, if any.
    pub fn from_legacy_byte(b: u8) -> (r: Option<Command>)
        ensures
            r matches Some(c) ==> c.spec_legacy_byte() == b,
            r is None <==> b > 2,
    {
        if b == 0 {
            Some(Command::Disable)
        } else if b == 1 {
            Some(Command::Enable)
        } else if b == 2 {
            Some(Command::TriggerNow)
        } else {
            None
        }
    }
}

/// The text of an action field: `disable`, `enable` or `trigger`.
pub open spec fn action_name(a: Action) -> Seq<u8> {
    match a {
        Action::Disable => seq!['d' as u8, 'i' as u8, 's' as u8, 'a' as u8, 'b' as u8, 'l' as u8, 'e' as u8],
        Action::Enable => seq!['e' as u8, 'n' as u8, 'a' as u8, 'b' as u8, 'l' as u8, 'e' as u8],
        Action::Trigger => seq!['t' as u8, 'r' as u8, 'i' as u8, 'g' as u8, 'g' as u8, 'e' as u8, 'r' as u8],
    }
}

fn action_name_bytes(a: Action) -> (r: Vec<u8>)
    ensures
        r@ == action_name(a),
{
    match a {
        Action::Disable => vec!['d' as u8, 'i' as u8, 's' as u8, 'a' as u8, 'b' as u8, 'l' as u8, 'e' as u8],
        Action::Enable => vec!['e' as u8, 'n' as u8, 'a' as u8, 'b' as u8, 'l' as u8, 'e' as u8],
        Action::Trigger => vec!['t' as u8, 'r' as u8, 'i' as u8, 'g' as u8, 'g' as u8, 'e' as u8, 'r' as u8],
    }
}

/// What precedes the action name in a structured record:
/// `{"type":"control","timer":null,"action":"`.
pub open spec fn record_prefix() -> Seq<u8> {
    seq![
        '{' as u8, '"' as u8, 't' as u8, 'y' as u8, 'p' as u8, 'e' as u8, '"' as u8, ':' as u8,
        '"' as u8, 'c' as u8, 'o' as u8, 'n' as u8, 't' as u8, 'r' as u8, 'o' as u8, 'l' as u8,
        '"' as u8, ',' as u8, '"' as u8, 't' as u8, 'i' as u8, 'm' as u8, 'e' as u8, 'r' as u8,
        '"' as u8, ':' as u8, 'n' as u8, 'u' as u8, 'l' as u8, 'l' as u8, ',' as u8, '"' as u8,
        'a' as u8, 'c' as u8, 't' as u8, 'i' as u8, 'o' as u8, 'n' as u8, '"' as u8, ':' as u8,
        '"' as u8,
    ]
}

/// What follows the action name in a structured record: a quote, a brace, a newline.
pub open spec fn record_suffix() -> Seq<u8> {
    seq!['"' as u8, '}' as u8, '\n' as u8]
}

/// The structured record of one action: a control message for all timers.
pub open spec fn record(a: Action) -> Seq<u8> {
    record_prefix() + action_name(a) + record_suffix()
}

fn record_prefix_bytes() -> (r: Vec<u8>)
    ensures
        r@ == record_prefix(),
{
    vec![
        '{' as u8, '"' as u8, 't' as u8, 'y' as u8, 'p' as u8, 'e' as u8, '"' as u8, ':' as u8,
        '"' as u8, 'c' as u8, 'o' as u8, 'n' as u8, 't' as u8, 'r' as u8, 'o' as u8, 'l' as u8,
        '"' as u8, ',' as u8, '"' as u8, 't' as u8, 'i' as u8, 'm' as u8, 'e' as u8, 'r' as u8,
        '"' as u8, ':' as u8, 'n' as u8, 'u' as u8, 'l' as u8, 'l' as u8, ',' as u8, '"' as u8,
        'a' as u8, 'c' as u8, 't' as u8, 'i' as u8, 'o' as u8, 'n' as u8, '"' as u8, ':' as u8,
        '"' as u8,
    ]
}

fn record_suffix_bytes() -> (r: Vec<u8>)
    ensures
        r@ == record_suffix(),
{
    vec!['"' as u8, '}' as u8, '\n' as u8]
}

impl Message {
    /// The control message that carries a command, addressed to all timers.
    pub open spec fn spec_for(cmd: Command) -> Message {
        Message::Control(Control { timer: Filter::All, action: cmd.spec_action() })
    }

    /// Builds the control message that carries `cmd`.
    pub fn for_command(cmd: Command) -> (r: Message)
        ensures
            r == Message::spec_for(cmd),
    {
        Message::Control(Control { timer: Filter::default(), action: cmd.action() })
    }

    pub open spec fn spec_command(self) -> Command {
        match self {
            Message::Control(c) => match c.action {
                Action::Disable => Command::Disable,
                Action::Enable => Command::Enable,
                Action::Trigger => Command::TriggerNow,
            },
        }
    }

    /// The command that this message carries.
    pub fn command(&self) -> (r: Command)
        ensures
            r == self.spec_command(),
    {
        match self {
            Message::Control(c) => match c.action {
                Action::Disable => Command::Disable,
                Action::Enable => Command::Enable,
                Action::Trigger => Command::TriggerNow,
            },
        }
    }

    /// The structured record of this message.
    pub fn encode(&self) -> (r: Vec<u8>)
        ensures
            r@ == match self {
                Message::Control(c) => record(c.action),
            },
    {
        let a = match self {
            Message::Control(c) => c.action,
        };
        let mut r = record_prefix_bytes();
        let mut name = action_name_bytes(a);
        let mut suffix = record_suffix_bytes();
        r.append(&mut name);
        r.append(&mut suffix);
        r
    }
}

/// What a command looks like on the wire of a protocol.
pub open spec fn spec_encode(p: Protocol, cmd: Command) -> Seq<u8> {
    match p {
        Protocol::Legacy => seq![cmd.spec_legacy_byte()],
        Protocol::Structured => record(cmd.spec_action()),
    }
}

/// The bytes that one `send` of `cmd` writes in protocol `p`.
pub fn encode(p: Protocol, cmd: Command) -> (r: Vec<u8>)
    ensures
        r@ == spec_encode(p, cmd),
{
    match p {
        Protocol::Legacy => vec![cmd.legacy_byte()],
        Protocol::Structured => Message::for_command(cmd).encode(),
    }
}

/// The message that a structured record holds: a record is read only in the
/// exact form that `encode` writes.
pub open spec fn spec_decode_record(b: Seq<u8>) -> Option<Message> {
    if b == record(Action::Disable) {
        Some(Message::spec_for(Command::Disable))
    } else if b == record(Action::Enable) {
        Some(Message::spec_for(Command::Enable))
    } else if b == record(Action::Trigger) {
        Some(Message::spec_for(Command::TriggerNow))
    } else {
        None
    }
}

fn bytes_equal(a: &[u8], b: &[u8]) -> (r: bool)
    ensures
        r == (a@ == b@),
{
    if a.len() != b.len() {
        return false;
    }
    let mut i: usize = 0;
    while i < a.len()
        invariant
            a@.len() == b@.len(),
            i <= a@.len(),
            a@.subrange(0, i as int) == b@.subrange(0, i as int),
        decreases a@.len() - i,
    {
        if a[i] != b[i] {
            assert(a@.subrange(0, i as int + 1)[i as int] != b@.subrange(0, i as int + 1)[i as int]);
            return false;
        }
        assert(a@.subrange(0, i as int + 1) =~= a@.subrange(0, i as int).push(a@[i as int]));
        assert(b@.subrange(0, i as int + 1) =~= b@.subrange(0, i as int).push(b@[i as int]));
        i = i + 1;
    }
    assert(a@ =~= a@.subrange(0, i as int));
    assert(b@ =~= b@.subrange(0, i as int));
    true
}

/// Reads a structured record back into the message it holds.
pub fn decode_record(b: &[u8]) -> (r: Option<Message>)
    ensures
        r == spec_decode_record(b@),
{
    if bytes_equal(b, Message::for_command(Command::Disable).encode().as_slice()) {
        Some(Message::for_command(Command::Disable))
    } else if bytes_equal(b, Message::for_command(Command::Enable).encode().as_slice()) {
        Some(Message::for_command(Command::Enable))
    } else if bytes_equal(b, Message::for_command(Command::TriggerNow).encode().as_slice()) {
        Some(Message::for_command(Command::TriggerNow))
    } else {
        None
    }
}

/// Whether `b` is one line: it ends with a newline and holds no other.
pub open spec fn is_single_line(b: Seq<u8>) -> bool {
    &&& b.len() > 0
    &&& b.last() == '\n' as u8
    &&& forall|i: int| 0 <= i < b.len() - 1 ==> b[i] != '\n' as u8
}

/// Each command encodes in the structured protocol as a single newline-terminated
/// record, and reading that record back gives a control message for all timers
/// whose action is the command's own.
pub proof fn lemma_structured_round_trip(cmd: Command)
    ensures
        is_single_line(spec_encode(Protocol::Structured, cmd)),
        spec_decode_record(spec_encode(Protocol::Structured, cmd)) == Some(
            Message::spec_for(cmd),
        ),
        spec_decode_record(spec_encode(Protocol::Structured, cmd)) matches Some(
            Message::Control(c),
        ) && c.timer == Filter::All && c.action == cmd.spec_action(),
        Message::spec_for(cmd).spec_command() == cmd,
{
    let d = record(Action::Disable);
    let e = record(Action::Enable);
    let t = record(Action::Trigger);
    assert(d.len() != e.len());
    assert(t.len() != e.len());
    assert(d[41] != t[41]);
    let r = record(cmd.spec_action());
    assert forall|i: int| 0 <= i < r.len() - 1 implies r[i] != '\n' as u8 by {
        if i < 41 {
            assert(r[i] == record_prefix()[i]);
        } else if i < 41 + action_name(cmd.spec_action()).len() {
            assert(r[i] == action_name(cmd.spec_action())[i - 41]);
        } else {
            assert(r[i] == record_suffix()[i - 41 - action_name(cmd.spec_action()).len()]);
        }
    }
}

/// Each command encodes in the legacy protocol as one byte, which reads back as
/// the same command.
pub proof fn lemma_legacy_round_trip(cmd: Command)
    ensures
        spec_encode(Protocol::Legacy, cmd).len() == 1,
        spec_encode(Protocol::Legacy, cmd)[0] <= 2,
        forall|c: Command| #[trigger] c.spec_legacy_byte() == spec_encode(Protocol::Legacy, cmd)[0]
            ==> c == cmd,
{
}

} // verus!
