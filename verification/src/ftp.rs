//! A protocol binding for the commands of an FTP session.

use vstd::prelude::*;
use libafl::inputs::BytesInput;
use libafl_bolts::rands::StdRand;
use libafl_bolts::Error;
use vstd::slice::slice_subrange;
use vstd::slice::slice_to_vec;
use crate::bytes::bytes_input;
use crate::bytes::bytes_of;
use crate::bytes::payload;
use crate::capture::first_line_end;
use crate::capture::is_first_line_end;
use crate::capture::TcpSegment;
use crate::executor::ProtoParser;
use crate::input::PacketProtocol;
use crate::mutators::crossover::HasCrossoverInsertMutation;
use crate::mutators::crossover::HasCrossoverReplaceMutation;
use crate::mutators::splice::HasSpliceMutation;
use crate::result::MutationResult;

verus! {

/// The space between a command and its argument.
pub const SPACE: u8 = 0x20;

/// The first byte of the end of a command.
pub const CR: u8 = 0x0d;

/// The second byte of the end of a command.
pub const LF: u8 = 0x0a;

/// The four bytes `USER`.
pub open spec fn user_tag() -> Seq<u8> {
    seq![0x55u8, 0x53u8, 0x45u8, 0x52u8]
}

/// The four bytes `PASS`.
pub open spec fn pass_tag() -> Seq<u8> {
    seq![0x50u8, 0x41u8, 0x53u8, 0x53u8]
}

/// The four bytes `PASV`.
pub open spec fn pasv_tag() -> Seq<u8> {
    seq![0x50u8, 0x41u8, 0x53u8, 0x56u8]
}

/// The four bytes `TYPE`.
pub open spec fn type_tag() -> Seq<u8> {
    seq![0x54u8, 0x59u8, 0x50u8, 0x45u8]
}

/// The four bytes `LIST`.
pub open spec fn list_tag() -> Seq<u8> {
    seq![0x4cu8, 0x49u8, 0x53u8, 0x54u8]
}

/// The four bytes `CWD `, the space included.
pub open spec fn cwd_tag() -> Seq<u8> {
    seq![0x43u8, 0x57u8, 0x44u8, 0x20u8]
}

/// The four bytes `QUIT`.
pub open spec fn quit_tag() -> Seq<u8> {
    seq![0x51u8, 0x55u8, 0x49u8, 0x54u8]
}

/// The two bytes that end a command.
pub open spec fn crlf() -> Seq<u8> {
    seq![CR, LF]
}

/// An FTP command as a mathematical value.
pub enum Command {
    /// `USER` with a user name.
    User(Seq<u8>),
    /// `PASS` with a password.
    Pass(Seq<u8>),
    /// `PASV`.
    Pasv,
    /// `TYPE` with its two type bytes.
    Type(u8, u8),
    /// `LIST`, with a directory or without.
    List(Option<Seq<u8>>),
    /// `CWD` with a directory.
    Cwd(Seq<u8>),
    /// `QUIT`.
    Quit,
}

/// The bytes of a command on the wire.
pub open spec fn command_wire(command: Command) -> Seq<u8> {
    match command {
        Command::User(name) => user_tag() + seq![SPACE] + name + crlf(),
        Command::Pass(password) => pass_tag() + seq![SPACE] + password + crlf(),
        Command::Pasv => pasv_tag() + crlf(),
        Command::Type(a, b) => type_tag() + seq![SPACE] + seq![a, b] + crlf(),
        Command::List(Some(dir)) => list_tag() + seq![SPACE] + dir + crlf(),
        Command::List(None) => list_tag() + crlf(),
        Command::Cwd(dir) => cwd_tag() + dir + crlf(),
        Command::Quit => quit_tag() + crlf(),
    }
}

/// The command that `bytes` are the bytes of, if they are those of one.
pub open spec fn parsed(bytes: Seq<u8>) -> Option<Command> {
    let n = bytes.len() as int;
    if n < 6 || bytes[n - 2] != CR || bytes[n - 1] != LF {
        None
    } else {
        let tag = bytes.subrange(0, 4);
        if tag == cwd_tag() {
            Some(Command::Cwd(bytes.subrange(4, n - 2)))
        } else if n == 6 {
            if tag == pasv_tag() {
                Some(Command::Pasv)
            } else if tag == quit_tag() {
                Some(Command::Quit)
            } else if tag == list_tag() {
                Some(Command::List(None))
            } else {
                None
            }
        } else if bytes[4] != SPACE {
            None
        } else if tag == user_tag() {
            Some(Command::User(bytes.subrange(5, n - 2)))
        } else if tag == pass_tag() {
            Some(Command::Pass(bytes.subrange(5, n - 2)))
        } else if tag == list_tag() {
            Some(Command::List(Some(bytes.subrange(5, n - 2))))
        } else if tag == type_tag() && n == 9 {
            Some(Command::Type(bytes[5], bytes[6]))
        } else {
            None
        }
    }
}

/// The bytes of a command are parsed as that command.
pub proof fn lemma_parse_written(command: Command)
    ensures
        parsed(command_wire(command)) == Some(command),
{
    let bytes = command_wire(command);
    let n = bytes.len() as int;
    match command {
        Command::User(name) => {
            assert(bytes.subrange(0, 4) =~= user_tag());
            assert(bytes.subrange(5, n - 2) =~= name);
            assert(user_tag()[0] != cwd_tag()[0]);
        },
        Command::Pass(password) => {
            assert(bytes.subrange(0, 4) =~= pass_tag());
            assert(bytes.subrange(5, n - 2) =~= password);
            assert(pass_tag()[0] != cwd_tag()[0]);
            assert(pass_tag()[0] != user_tag()[0]);
        },
        Command::Pasv => {
            assert(bytes.subrange(0, 4) =~= pasv_tag());
            assert(pasv_tag()[0] != cwd_tag()[0]);
        },
        Command::Type(a, b) => {
            assert(bytes.subrange(0, 4) =~= type_tag());
            assert(type_tag()[0] != cwd_tag()[0]);
            assert(type_tag()[0] != user_tag()[0]);
            assert(type_tag()[0] != pass_tag()[0]);
            assert(type_tag()[0] != list_tag()[0]);
        },
        Command::List(Some(dir)) => {
            assert(bytes.subrange(0, 4) =~= list_tag());
            assert(bytes.subrange(5, n - 2) =~= dir);
            assert(list_tag()[0] != cwd_tag()[0]);
            assert(list_tag()[0] != user_tag()[0]);
            assert(list_tag()[0] != pass_tag()[0]);
        },
        Command::List(None) => {
            assert(bytes.subrange(0, 4) =~= list_tag());
            assert(list_tag()[0] != cwd_tag()[0]);
            assert(list_tag()[0] != pasv_tag()[0]);
            assert(list_tag()[0] != quit_tag()[0]);
        },
        Command::Cwd(dir) => {
            assert(bytes.subrange(0, 4) =~= cwd_tag());
            assert(bytes.subrange(4, n - 2) =~= dir);
        },
        Command::Quit => {
            assert(bytes.subrange(0, 4) =~= quit_tag());
            assert(quit_tag()[0] != cwd_tag()[0]);
            assert(quit_tag()[0] != pasv_tag()[0]);
        },
    }
}

/// Bytes that are parsed as a command are the bytes of that command.
pub proof fn lemma_write_parsed(bytes: Seq<u8>, command: Command)
    requires
        parsed(bytes) == Some(command),
    ensures
        command_wire(command) == bytes,
{
    let n = bytes.len() as int;
    let tag = bytes.subrange(0, 4);
    assert(bytes.subrange(n - 2, n) =~= crlf());
    match command {
        Command::User(name) => {
            assert(bytes =~= tag + seq![SPACE] + bytes.subrange(5, n - 2) + crlf());
        },
        Command::Pass(password) => {
            assert(bytes =~= tag + seq![SPACE] + bytes.subrange(5, n - 2) + crlf());
        },
        Command::Pasv => {
            assert(bytes =~= tag + crlf());
        },
        Command::Type(a, b) => {
            assert(bytes =~= tag + seq![SPACE] + seq![bytes[5], bytes[6]] + crlf());
        },
        Command::List(Some(dir)) => {
            assert(bytes =~= tag + seq![SPACE] + bytes.subrange(5, n - 2) + crlf());
        },
        Command::List(None) => {
            assert(bytes =~= tag + crlf());
        },
        Command::Cwd(dir) => {
            assert(bytes =~= tag + bytes.subrange(4, n - 2) + crlf());
        },
        Command::Quit => {
            assert(bytes =~= tag + crlf());
        },
    }
}

/// A command of an FTP session.
#[derive(Clone, Debug, PartialEq, Eq, Hash)]
pub enum FtpProtocol {
    /// `USER` with a user name.
    USER(BytesInput),
    /// `PASS` with a password.
    PASS(BytesInput),
    /// `PASV`.
    PASV,
    /// `TYPE` with its two type bytes.
    TYPE(u8, u8),
    /// `LIST`, with a directory or without.
    LIST(Option<BytesInput>),
    /// `CWD` with a directory.
    CWD(BytesInput),
    /// `QUIT`.
    QUIT,
}

impl View for FtpProtocol {
    type V = Command;

    open spec fn view(&self) -> Command {
        match *self {
            FtpProtocol::USER(name) => Command::User(payload(name)),
            FtpProtocol::PASS(password) => Command::Pass(payload(password)),
            FtpProtocol::PASV => Command::Pasv,
            FtpProtocol::TYPE(a, b) => Command::Type(a, b),
            FtpProtocol::LIST(Some(dir)) => Command::List(Some(payload(dir))),
            FtpProtocol::LIST(None) => Command::List(None),
            FtpProtocol::CWD(dir) => Command::Cwd(payload(dir)),
            FtpProtocol::QUIT => Command::Quit,
        }
    }
}

/// Appends four bytes.
fn push4(buf: &mut Vec<u8>, a: u8, b: u8, c: u8, d: u8)
    ensures
        final(buf)@ == old(buf)@ + seq![a, b, c, d],
{
    buf.push(a);
    buf.push(b);
    buf.push(c);
    buf.push(d);
    assert(buf@ =~= old(buf)@ + seq![a, b, c, d]);
}

/// Appends the end of a command.
fn push_crlf(buf: &mut Vec<u8>)
    ensures
        final(buf)@ == old(buf)@ + crlf(),
{
    buf.push(CR);
    buf.push(LF);
    assert(buf@ =~= old(buf)@ + crlf());
}

/// Appends a space and the bytes of an argument.
fn push_argument(buf: &mut Vec<u8>, argument: &BytesInput)
    ensures
        final(buf)@ == old(buf)@ + seq![SPACE] + payload(*argument),
{
    buf.push(SPACE);
    buf.extend_from_slice(bytes_of(argument).as_slice());
    assert(buf@ =~= old(buf)@ + seq![SPACE] + payload(*argument));
}

/// Whether `bytes` starts with the four given bytes.
fn starts_with4(bytes: &[u8], a: u8, b: u8, c: u8, d: u8) -> (starts: bool)
    requires
        bytes@.len() >= 4,
    ensures
        starts == (bytes@.subrange(0, 4) == seq![a, b, c, d]),
{
    let starts = bytes[0] == a && bytes[1] == b && bytes[2] == c && bytes[3] == d;
    proof {
        let head = bytes@.subrange(0, 4);
        if starts {
            assert(head =~= seq![a, b, c, d]);
        } else {
            assert(head[0] == bytes@[0] && head[1] == bytes@[1] && head[2] == bytes@[2] && head[3]
                == bytes@[3]);
            assert(seq![a, b, c, d][0] == a && seq![a, b, c, d][1] == b && seq![a, b, c, d][2] == c
                && seq![a, b, c, d][3] == d);
        }
    }
    starts
}

/// The bytes of `bytes` from `from` up to `to` as a byte-string packet.
fn argument(bytes: &[u8], from: usize, to: usize) -> (packet: BytesInput)
    requires
        from <= to <= bytes@.len(),
    ensures
        payload(packet) == bytes@.subrange(from as int, to as int),
{
    bytes_input(slice_to_vec(slice_subrange(bytes, from, to)))
}

impl FtpProtocol {
    /// The bytes that the command carries, if it carries any.
    pub open spec fn spec_inner_data(self) -> Option<BytesInput> {
        match self {
            FtpProtocol::USER(data) => Some(data),
            FtpProtocol::PASS(data) => Some(data),
            FtpProtocol::CWD(data) => Some(data),
            FtpProtocol::LIST(Some(data)) => Some(data),
            _ => None,
        }
    }

    /// The command with the bytes that it carries exchanged for `data`.
    pub open spec fn with_inner_data(self, data: BytesInput) -> Self {
        match self {
            FtpProtocol::USER(_) => FtpProtocol::USER(data),
            FtpProtocol::PASS(_) => FtpProtocol::PASS(data),
            FtpProtocol::CWD(_) => FtpProtocol::CWD(data),
            FtpProtocol::LIST(Some(_)) => FtpProtocol::LIST(Some(data)),
            _ => self,
        }
    }

    /// The bytes that the command carries, if it carries any.
    pub fn inner_data(&self) -> (data: Option<&BytesInput>)
        ensures
            match data {
                Some(data) => self.spec_inner_data() == Some(*data),
                None => self.spec_inner_data() is None,
            },
    {
        match self {
            FtpProtocol::USER(data) => Some(data),
            FtpProtocol::PASS(data) => Some(data),
            FtpProtocol::CWD(data) => Some(data),
            FtpProtocol::LIST(Some(data)) => Some(data),
            _ => None,
        }
    }
}

/// The command that a captured line stands for. `line` is the payload of
/// a segment, and `end` the position at which its first line ends. The
/// argument of a command is what stands between the command and the end
/// of the line; `TYPE` has its two type bytes with one byte between them,
/// or one type byte alone, which then goes with `N`.
pub open spec fn captured(line: Seq<u8>, end: int) -> Option<Command> {
    let tag = line.subrange(0, 4);
    if end < 4 {
        None
    } else if tag == cwd_tag() {
        Some(Command::Cwd(line.subrange(4, end)))
    } else if tag == pasv_tag() {
        Some(Command::Pasv)
    } else if tag == quit_tag() {
        Some(Command::Quit)
    } else if tag == list_tag() {
        if end > 5 {
            Some(Command::List(Some(line.subrange(5, end))))
        } else {
            Some(Command::List(None))
        }
    } else if end < 5 {
        None
    } else if tag == user_tag() {
        Some(Command::User(line.subrange(5, end)))
    } else if tag == pass_tag() {
        Some(Command::Pass(line.subrange(5, end)))
    } else if tag == type_tag() && end > 7 {
        Some(Command::Type(line[5], line[7]))
    } else if tag == type_tag() && end == 6 {
        Some(Command::Type(line[5], 0x4eu8))
    } else {
        None
    }
}

/// The command that the payload of a segment holds: that of its first
/// line, where the payload has more than four bytes and holds a line.
pub open spec fn command_in(payload: Seq<u8>) -> Option<Command> {
    if payload.len() > 4 && exists|end: int| is_first_line_end(payload, end) {
        captured(payload, choose|end: int| is_first_line_end(payload, end))
    } else {
        None
    }
}

/// The commands of the session that the segments `segments` hold, given
/// the ports `flow` of the session if it has begun. The session is the
/// first connection that a client opens; it ends where a segment of it
/// closes the connection. Segments of other connections are passed over,
/// and so is a payload that holds no command.
pub open spec fn imported(segments: Seq<TcpSegment>, flow: Option<(u16, u16)>) -> Seq<Command>
    decreases segments.len(),
{
    if segments.len() == 0 {
        Seq::empty()
    } else {
        let segment = segments.first();
        let rest = segments.drop_first();
        if segment.opens() {
            imported(
                rest,
                if flow is None {
                    Some(segment.ports())
                } else {
                    flow
                },
            )
        } else if segment.closes() {
            if flow == Some(segment.ports()) {
                Seq::empty()
            } else {
                imported(rest, flow)
            }
        } else if flow == Some(segment.ports()) {
            match command_in(segment.payload@) {
                Some(command) => seq![command] + imported(rest, flow),
                None => imported(rest, flow),
            }
        } else {
            imported(rest, flow)
        }
    }
}

/// The commands that a list of packets stands for.
pub open spec fn commands_of(packets: Seq<FtpProtocol>) -> Seq<Command> {
    packets.map_values(|packet: FtpProtocol| packet@)
}

/// The command that the payload of a captured segment holds.
pub fn capture_command(payload: &[u8]) -> (packet: Option<FtpProtocol>)
    ensures
        match packet {
            Some(packet) => command_in(payload@) == Some(packet@),
            None => command_in(payload@) is None,
        },
{
    if payload.len() <= 4 {
        return None;
    }
    let end = match first_line_end(payload) {
        Some(end) => end,
        None => {
            return None;
        },
    };
    proof {
        let chosen = choose|e: int| is_first_line_end(payload@, e);
        assert(is_first_line_end(payload@, end as int));
        assert(chosen == end) by {
            if chosen < end {
                assert(!crate::capture::is_line_end(payload@, chosen));
            }
            if end < chosen {
                assert(!crate::capture::is_line_end(payload@, end as int));
            }
        }
    }
    if end < 4 {
        None
    } else if starts_with4(payload, 0x43, 0x57, 0x44, 0x20) {
        Some(FtpProtocol::CWD(argument(payload, 4, end)))
    } else if starts_with4(payload, 0x50, 0x41, 0x53, 0x56) {
        Some(FtpProtocol::PASV)
    } else if starts_with4(payload, 0x51, 0x55, 0x49, 0x54) {
        Some(FtpProtocol::QUIT)
    } else if starts_with4(payload, 0x4c, 0x49, 0x53, 0x54) {
        if end > 5 {
            Some(FtpProtocol::LIST(Some(argument(payload, 5, end))))
        } else {
            Some(FtpProtocol::LIST(None))
        }
    } else if end < 5 {
        None
    } else if starts_with4(payload, 0x55, 0x53, 0x45, 0x52) {
        Some(FtpProtocol::USER(argument(payload, 5, end)))
    } else if starts_with4(payload, 0x50, 0x41, 0x53, 0x53) {
        Some(FtpProtocol::PASS(argument(payload, 5, end)))
    } else if starts_with4(payload, 0x54, 0x59, 0x50, 0x45) {
        if end > 7 {
            Some(FtpProtocol::TYPE(payload[5], payload[7]))
        } else if end == 6 {
            Some(FtpProtocol::TYPE(payload[5], 0x4e))
        } else {
            None
        }
    } else {
        None
    }
}

impl PacketProtocol for FtpProtocol {
    open spec fn wire(&self) -> Seq<u8> {
        command_wire(self@)
    }

    open spec fn parses(bytes: Seq<u8>) -> bool {
        parsed(bytes) is Some
    }

    fn write(&self, buf: &mut Vec<u8>) {
        match self {
            FtpProtocol::USER(name) => {
                push4(buf, 0x55, 0x53, 0x45, 0x52);
                push_argument(buf, name);
            },
            FtpProtocol::PASS(password) => {
                push4(buf, 0x50, 0x41, 0x53, 0x53);
                push_argument(buf, password);
            },
            FtpProtocol::PASV => {
                push4(buf, 0x50, 0x41, 0x53, 0x56);
            },
            FtpProtocol::TYPE(arg1, arg2) => {
                push4(buf, 0x54, 0x59, 0x50, 0x45);
                buf.push(SPACE);
                buf.push(*arg1);
                buf.push(*arg2);
            },
            FtpProtocol::LIST(dir) => {
                push4(buf, 0x4c, 0x49, 0x53, 0x54);
                match dir {
                    Some(dir) => {
                        push_argument(buf, dir);
                    },
                    None => {},
                }
            },
            FtpProtocol::CWD(dir) => {
                push4(buf, 0x43, 0x57, 0x44, 0x20);
                buf.extend_from_slice(bytes_of(dir).as_slice());
            },
            FtpProtocol::QUIT => {
                push4(buf, 0x51, 0x55, 0x49, 0x54);
            },
        }
        push_crlf(buf);
        assert(buf@ =~= old(buf)@ + command_wire(self@));
    }

    fn from_bytes(bytes: &[u8]) -> (packet: Option<Self>)
        ensures
            match packet {
                Some(packet) => parsed(bytes@) == Some(packet@),
                None => parsed(bytes@) is None,
            },
    {
        let n = bytes.len();
        if n < 6 || bytes[n - 2] != CR || bytes[n - 1] != LF {
            return None;
        }
        let packet = if starts_with4(bytes, 0x43, 0x57, 0x44, 0x20) {
            Some(FtpProtocol::CWD(argument(bytes, 4, n - 2)))
        } else if n == 6 {
            if starts_with4(bytes, 0x50, 0x41, 0x53, 0x56) {
                Some(FtpProtocol::PASV)
            } else if starts_with4(bytes, 0x51, 0x55, 0x49, 0x54) {
                Some(FtpProtocol::QUIT)
            } else if starts_with4(bytes, 0x4c, 0x49, 0x53, 0x54) {
                Some(FtpProtocol::LIST(None))
            } else {
                None
            }
        } else if bytes[4] != SPACE {
            None
        } else if starts_with4(bytes, 0x55, 0x53, 0x45, 0x52) {
            Some(FtpProtocol::USER(argument(bytes, 5, n - 2)))
        } else if starts_with4(bytes, 0x50, 0x41, 0x53, 0x53) {
            Some(FtpProtocol::PASS(argument(bytes, 5, n - 2)))
        } else if starts_with4(bytes, 0x4c, 0x49, 0x53, 0x54) {
            Some(FtpProtocol::LIST(Some(argument(bytes, 5, n - 2))))
        } else if starts_with4(bytes, 0x54, 0x59, 0x50, 0x45) && n == 9 {
            Some(FtpProtocol::TYPE(bytes[5], bytes[6]))
        } else {
            None
        };
        proof {
            if packet is Some {
                lemma_write_parsed(bytes@, packet->Some_0@);
            }
        }
        packet
    }

    open spec fn capture_wire(capture: Seq<TcpSegment>) -> Seq<Seq<u8>> {
        imported(capture, None).map_values(|command: Command| command_wire(command))
    }

    fn from_capture(capture: &Vec<TcpSegment>) -> (packets: Vec<Self>)
        ensures
            commands_of(packets@) == imported(capture@, None),
    {
        let mut packets: Vec<FtpProtocol> = Vec::new();
        let mut command_connection: Option<(u16, u16)> = None;
        let mut i: usize = 0;
        assert(capture@.skip(0) =~= capture@);
        assert(commands_of(packets@) + imported(capture@, None) =~= imported(capture@, None));
        while i < capture.len()
            invariant
                i <= capture.len(),
                imported(capture@, None) == commands_of(packets@) + imported(
                    capture@.skip(i as int),
                    command_connection,
                ),
            decreases capture.len() - i,
        {
            let segment = &capture[i];
            let packet_ports = (segment.source_port, segment.destination_port);
            let ghost rest = capture@.skip(i as int);
            proof {
                assert(rest.first() == capture@[i as int]);
                assert(rest.drop_first() =~= capture@.skip(i + 1));
            }
            if segment.syn && !segment.ack {
                if command_connection.is_none() {
                    command_connection = Some(packet_ports);
                }
            } else if segment.fin || segment.rst {
                if command_connection == Some(packet_ports) {
                    proof {
                        assert(commands_of(packets@) + Seq::<Command>::empty() =~= commands_of(
                            packets@,
                        ));
                        assert(packets@.map_values(|packet: FtpProtocol| packet.wire())
                            =~= commands_of(packets@).map_values(
                            |command: Command| command_wire(command),
                        ));
                    }
                    return packets;
                }
            } else if command_connection == Some(packet_ports) {
                match capture_command(segment.payload.as_slice()) {
                    Some(command) => {
                        proof {
                            let done = commands_of(packets@);
                            let more = imported(capture@.skip(i + 1), command_connection);
                            assert(commands_of(packets@.push(command)) =~= done.push(command@));
                            assert(done + (seq![command@] + more) =~= done.push(command@) + more);
                        }
                        packets.push(command);
                    },
                    None => {},
                }
            }
            i = i + 1;
        }
        proof {
            assert(capture@.skip(i as int) =~= Seq::<TcpSegment>::empty());
            assert(commands_of(packets@) + Seq::<Command>::empty() =~= commands_of(packets@));
            assert(packets@.map_values(|packet: FtpProtocol| packet.wire()) =~= commands_of(
                packets@,
            ).map_values(|command: Command| command_wire(command)));
        }
        packets
    }
}

/// The status code that the reply `response` starts with: three decimal
/// digits and no fourth. A reply of fewer than five bytes and one that
/// starts in another way count as code 0.
pub open spec fn reply_code(response: Seq<u8>) -> u32 {
    if response.len() >= 5 && is_digit(response[0]) && is_digit(response[1]) && is_digit(
        response[2],
    ) && !is_digit(response[3]) {
        ((response[0] - 0x30) * 100 + (response[1] - 0x30) * 10 + (response[2] - 0x30)) as u32
    } else {
        0
    }
}

/// Whether `byte` is a decimal digit.
pub open spec fn is_digit(byte: u8) -> bool {
    0x30 <= byte <= 0x39
}

/// Reads the state of an FTP server off its replies: the status code of a reply.
pub struct FtpParser {}

impl FtpParser {
    /// A new parser.
    pub fn new() -> Self {
        FtpParser {  }
    }
}

impl ProtoParser<u32> for FtpParser {
    open spec fn state_of(response: Seq<u8>) -> Option<u32> {
        Some(reply_code(response))
    }

    fn parse_response(&mut self, response: &[u8]) -> (state: Option<u32>) {
        if response.len() < 5 {
            return Some(0);
        }
        let a = response[0];
        let b = response[1];
        let c = response[2];
        let d = response[3];
        if 0x30 <= a && a <= 0x39 && 0x30 <= b && b <= 0x39 && 0x30 <= c && c <= 0x39 && !(0x30 <= d
            && d <= 0x39) {
            Some((a - 0x30) as u32 * 100 + (b - 0x30) as u32 * 10 + (c - 0x30) as u32)
        } else {
            Some(0)
        }
    }
}

impl HasCrossoverInsertMutation for FtpProtocol {
    open spec fn crossover_insert_of(
        before: Self,
        other: Self,
        after: Self,
        result: Result<MutationResult, Error>,
    ) -> bool {
        if before.spec_inner_data() is None || other.spec_inner_data() is None {
            result == Ok::<MutationResult, Error>(MutationResult::Skipped) && after == before
        } else {
            &&& after.spec_inner_data() matches Some(out)
            &&& after == before.with_inner_data(out)
            &&& BytesInput::crossover_insert_of(
                before.spec_inner_data()->Some_0,
                other.spec_inner_data()->Some_0,
                out,
                result,
            )
        }
    }

    /// Inserts bytes that `other` carries into the bytes that `self` carries.
    /// A command that carries no bytes is skipped, and so is one whose
    /// partner carries none.
    fn mutate_crossover_insert(&mut self, rand: &mut StdRand, other: &Self) -> (result: Result<
        MutationResult,
        Error,
    >)
        ensures
            result is Ok,
            result->Ok_0 == MutationResult::Skipped <==> {
                ||| old(self).spec_inner_data() is None
                ||| other.spec_inner_data() is None
                ||| payload(old(self).spec_inner_data()->Some_0).len() == 0
                ||| payload(other.spec_inner_data()->Some_0).len() == 0
            },
    {
        match other.inner_data() {
            Some(source) => match self {
                FtpProtocol::USER(data) => data.mutate_crossover_insert(rand, source),
                FtpProtocol::PASS(data) => data.mutate_crossover_insert(rand, source),
                FtpProtocol::CWD(data) => data.mutate_crossover_insert(rand, source),
                FtpProtocol::LIST(Some(data)) => data.mutate_crossover_insert(rand, source),
                _ => Ok(MutationResult::Skipped),
            },
            None => Ok(MutationResult::Skipped),
        }
    }
}

impl HasCrossoverReplaceMutation for FtpProtocol {
    open spec fn crossover_replace_of(
        before: Self,
        other: Self,
        after: Self,
        result: Result<MutationResult, Error>,
    ) -> bool {
        if before.spec_inner_data() is None || other.spec_inner_data() is None {
            result == Ok::<MutationResult, Error>(MutationResult::Skipped) && after == before
        } else {
            &&& after.spec_inner_data() matches Some(out)
            &&& after == before.with_inner_data(out)
            &&& BytesInput::crossover_replace_of(
                before.spec_inner_data()->Some_0,
                other.spec_inner_data()->Some_0,
                out,
                result,
            )
        }
    }

    /// Replaces bytes that `self` carries by bytes that `other` carries.
    /// A command that carries no bytes is skipped, and so is one whose
    /// partner carries none.
    fn mutate_crossover_replace(&mut self, rand: &mut StdRand, other: &Self) -> (result: Result<
        MutationResult,
        Error,
    >)
        ensures
            result is Ok,
            result->Ok_0 == MutationResult::Skipped <==> {
                ||| old(self).spec_inner_data() is None
                ||| other.spec_inner_data() is None
                ||| payload(old(self).spec_inner_data()->Some_0).len() == 0
                ||| payload(other.spec_inner_data()->Some_0).len() == 0
            },
    {
        match other.inner_data() {
            Some(source) => match self {
                FtpProtocol::USER(data) => data.mutate_crossover_replace(rand, source),
                FtpProtocol::PASS(data) => data.mutate_crossover_replace(rand, source),
                FtpProtocol::CWD(data) => data.mutate_crossover_replace(rand, source),
                FtpProtocol::LIST(Some(data)) => data.mutate_crossover_replace(rand, source),
                _ => Ok(MutationResult::Skipped),
            },
            None => Ok(MutationResult::Skipped),
        }
    }
}

impl HasSpliceMutation for FtpProtocol {
    open spec fn splice_of(
        before: Self,
        other: Self,
        after: Self,
        result: Result<MutationResult, Error>,
    ) -> bool {
        if before.spec_inner_data() is None || other.spec_inner_data() is None {
            result == Ok::<MutationResult, Error>(MutationResult::Skipped) && after == before
        } else {
            &&& after.spec_inner_data() matches Some(out)
            &&& after == before.with_inner_data(out)
            &&& BytesInput::splice_of(
                before.spec_inner_data()->Some_0,
                other.spec_inner_data()->Some_0,
                out,
                result,
            )
        }
    }

    /// Splices the bytes that `self` and `other` carry.
    /// A command that carries no bytes is skipped, and so is one whose
    /// partner carries none.
    fn mutate_splice(&mut self, rand: &mut StdRand, other: &Self) -> (result: Result<
        MutationResult,
        Error,
    >)
        ensures
            result is Ok,
            result->Ok_0 == MutationResult::Skipped <==> {
                ||| old(self).spec_inner_data() is None
                ||| other.spec_inner_data() is None
                ||| payload(old(self).spec_inner_data()->Some_0).len() == 0
                ||| payload(other.spec_inner_data()->Some_0).len() == 0
            },
    {
        match other.inner_data() {
            Some(source) => match self {
                FtpProtocol::USER(data) => data.mutate_splice(rand, source),
                FtpProtocol::PASS(data) => data.mutate_splice(rand, source),
                FtpProtocol::CWD(data) => data.mutate_splice(rand, source),
                FtpProtocol::LIST(Some(data)) => data.mutate_splice(rand, source),
                _ => Ok(MutationResult::Skipped),
            },
            None => Ok(MutationResult::Skipped),
        }
    }
}

} // verus!
