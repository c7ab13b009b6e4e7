//! The line protocol between the control commands and the daemon: one command
//! per connection, one line each way, over a unix socket.

use crate::paths::{join, spec_join};
use crate::text::{is_white, same_text, spec_trim, spec_trim_end, spec_trim_start, trim, trim_end};
use vstd::prelude::*;
use vstd::utf8::encode_utf8;

verus! {

/// The blanking state the daemon is in.
#[derive(Debug, Clone, Copy, PartialEq, Eq, Structural)]
pub enum State {
    Active,
    Dim,
    Black,
}

impl State {
    /// The word that a `status` reply holds.
    pub open spec fn word(self) -> Seq<char> {
        match self {
            State::Active => "active"@,
            State::Dim => "dim"@,
            State::Black => "black"@,
        }
    }

    /// The state's name, as `status` prints it.
    pub fn to_string(&self) -> (r: String)
        ensures
            r@ == self.word(),
    {
        match self {
            State::Active => "active".to_owned(),
            State::Dim => "dim".to_owned(),
            State::Black => "black".to_owned(),
        }
    }
}

/// A command sent from a control client to the daemon.
#[derive(Debug, Clone, Copy, PartialEq, Eq, Structural)]
pub enum Command {
    Blank,
    Wake,
    Status,
}

impl Command {
    /// The word that stands for the command.
    pub open spec fn word(self) -> Seq<char> {
        match self {
            Command::Blank => "blank"@,
            Command::Wake => "wake"@,
            Command::Status => "status"@,
        }
    }

    /// The command that a line asks for: its word, with any white space around.
    pub open spec fn spec_parse(line: Seq<char>) -> Option<Command> {
        if spec_trim(line) == Command::Blank.word() {
            Some(Command::Blank)
        } else if spec_trim(line) == Command::Wake.word() {
            Some(Command::Wake)
        } else if spec_trim(line) == Command::Status.word() {
            Some(Command::Status)
        } else {
            None
        }
    }

    /// The word that stands for the command.
    pub fn as_str(self) -> (r: &'static str)
        ensures
            r@ == self.word(),
    {
        match self {
            Command::Blank => "blank",
            Command::Wake => "wake",
            Command::Status => "status",
        }
    }

    /// Reads a command off a line.
    pub fn parse(s: &str) -> (r: Option<Command>)
        ensures
            r == Command::spec_parse(s@),
    {
        let word = trim(s);
        if same_text(word, "blank") {
            Some(Command::Blank)
        } else if same_text(word, "wake") {
            Some(Command::Wake)
        } else if same_text(word, "status") {
            Some(Command::Status)
        } else {
            None
        }
    }
}

/// `text` as a line of its own.
pub open spec fn spec_line(text: Seq<char>) -> Seq<char> {
    text + "\n"@
}

/// Frames a command or a reply as one line.
pub fn as_line(text: &str) -> (r: String)
    ensures
        r@ == spec_line(text@),
{
    text.to_owned().concat("\n")
}

/// What a client prints of the line that the daemon sent.
pub fn read_reply(line: &str) -> (r: String)
    ensures
        r@ == spec_trim_end(line@),
{
    trim_end(line).to_owned()
}

/// The reply to a command that was carried out.
pub open spec fn ok_reply() -> Seq<char> {
    "ok"@
}

/// The reply to a line that holds no command.
pub open spec fn unknown_reply() -> Seq<char> {
    "error: unknown command"@
}

/// The directory of the socket: the session's runtime directory, or `/tmp` where
/// none is set.
pub open spec fn socket_dir(runtime_dir: Option<Seq<u8>>) -> Seq<u8> {
    match runtime_dir {
        Some(dir) => dir,
        None => encode_utf8("/tmp"@),
    }
}

/// Where the control socket is: `$XDG_RUNTIME_DIR/gamescope-idle.sock`, with the
/// value of that variable given.
pub fn socket_path(runtime_dir: Option<Vec<u8>>) -> (path: Vec<u8>)
    ensures
        path@ == spec_join(
            socket_dir(
                match runtime_dir {
                    Some(dir) => Some(dir@),
                    None => None,
                },
            ),
            encode_utf8("gamescope-idle.sock"@),
        ),
{
    let dir: Vec<u8> = match runtime_dir {
        Some(dir) => dir,
        None => "/tmp".as_bytes_vec(),
    };
    join(dir, "gamescope-idle.sock")
}

/// The text is not empty, and no white space stands at its ends.
pub open spec fn is_trimmed(s: Seq<char>) -> bool {
    s.len() > 0 && !is_white(s[0]) && !is_white(s.last())
}

/// Every character is white space.
pub open spec fn all_white(s: Seq<char>) -> bool {
    forall|i: int| 0 <= i < s.len() ==> is_white(#[trigger] s[i])
}

/// White space after a text is trimmed away, and nothing else.
pub proof fn lemma_trim_end_of_padded(s: Seq<char>, right: Seq<char>)
    requires
        all_white(right),
        s.len() > 0 ==> !is_white(s.last()),
    ensures
        spec_trim_end(s + right) == s,
    decreases right.len(),
{
    if right.len() > 0 {
        assert((s + right).last() == right.last());
        assert((s + right).drop_last() =~= s + right.drop_last());
        lemma_trim_end_of_padded(s, right.drop_last());
    } else {
        assert(s + right =~= s);
    }
}

/// White space before a text is trimmed away, and nothing else.
pub proof fn lemma_trim_start_of_padded(left: Seq<char>, s: Seq<char>)
    requires
        all_white(left),
        s.len() > 0 ==> !is_white(s[0]),
    ensures
        spec_trim_start(left + s) == s,
    decreases left.len(),
{
    if left.len() > 0 {
        assert((left + s)[0] == left[0]);
        assert((left + s).drop_first() =~= left.drop_first() + s);
        assert forall|i: int| 0 <= i < left.drop_first().len() implies is_white(
            #[trigger] left.drop_first()[i],
        ) by {
            assert(left.drop_first()[i] == left[i + 1]);
        }
        lemma_trim_start_of_padded(left.drop_first(), s);
    } else {
        assert(left + s =~= s);
    }
}

/// The words of the protocol hold no white space at their ends, and no two
/// commands share one.
pub proof fn lemma_words()
    ensures
        forall|c: Command| is_trimmed(#[trigger] c.word()),
        forall|s: State| is_trimmed(#[trigger] s.word()),
        forall|c: Command, d: Command| #[trigger] c.word() == #[trigger] d.word() ==> c == d,
        is_trimmed(ok_reply()),
        is_trimmed(unknown_reply()),
        all_white("\n"@),
{
    reveal_strlit("blank");
    reveal_strlit("wake");
    reveal_strlit("status");
    reveal_strlit("active");
    reveal_strlit("dim");
    reveal_strlit("black");
    reveal_strlit("ok");
    reveal_strlit("error: unknown command");
    reveal_strlit("\n");
    assert("blank"@.len() != "wake"@.len());
    assert("blank"@.len() != "status"@.len());
    assert("wake"@.len() != "status"@.len());
}

/// A command's word is read as that command, whatever white space stands around
/// it.
pub proof fn law_padded_word_is_its_command(c: Command, left: Seq<char>, right: Seq<char>)
    requires
        all_white(left),
        all_white(right),
    ensures
        Command::spec_parse(left + c.word() + right) == Some(c),
{
    lemma_words();
    let w = c.word();
    assert(left + w + right =~= left + (w + right));
    assert((w + right)[0] == w[0]);
    lemma_trim_start_of_padded(left, w + right);
    lemma_trim_end_of_padded(w, right);
}

/// The daemon reads the command that the client sent.
pub proof fn law_request_is_understood(c: Command)
    ensures
        Command::spec_parse(spec_line(c.word())) == Some(c),
{
    lemma_words();
    law_padded_word_is_its_command(c, Seq::empty(), "\n"@);
    assert(Seq::<char>::empty() + c.word() + "\n"@ =~= spec_line(c.word()));
}

/// Trimming takes white space off both ends, all of it, and nothing else.
pub proof fn law_trim_takes_only_white_space(s: Seq<char>)
    ensures
        ({
            let t = spec_trim(s);
            &&& t.len() > 0 ==> is_trimmed(t)
            &&& exists|left: Seq<char>, right: Seq<char>|
                all_white(left) && all_white(right) && s == #[trigger] (left + t + right)
        }),
{
    let from = spec_trim_start(s);
    lemma_trim_start_parts(s);
    law_trim_end_takes_only_white_space(from);
    let left = s.take(s.len() - from.len());
    let t = spec_trim_end(from);
    let right = from.skip(t.len() as int);
    assert(from == t + right);
    assert(s =~= left + from);
    assert(left + (t + right) =~= left + t + right);
    if t.len() > 0 {
        assert(t[0] == from[0]);
    }
}

/// Trimming the start leaves the end of the text, after nothing but white space.
proof fn lemma_trim_start_parts(s: Seq<char>)
    ensures
        ({
            let t = spec_trim_start(s);
            &&& t.len() <= s.len()
            &&& t == s.skip(s.len() - t.len())
            &&& all_white(s.take(s.len() - t.len()))
            &&& t.len() > 0 ==> !is_white(t[0])
        }),
    decreases s.len(),
{
    if s.len() > 0 && is_white(s[0]) {
        let rest = s.drop_first();
        lemma_trim_start_parts(rest);
        let t = spec_trim_start(s);
        assert(rest.skip(rest.len() - t.len()) =~= s.skip(s.len() - t.len()));
        assert forall|i: int| 0 <= i < s.len() - t.len() implies is_white(
            #[trigger] s.take(s.len() - t.len())[i],
        ) by {
            if i > 0 {
                assert(rest.take(rest.len() - t.len())[i - 1] == s[i]);
            }
        }
    } else {
        assert(s.skip(0) =~= s);
    }
}

/// Trimming the end leaves the start of the text, before nothing but white space.
pub proof fn law_trim_end_takes_only_white_space(s: Seq<char>)
    ensures
        ({
            let t = spec_trim_end(s);
            &&& t.len() <= s.len()
            &&& s == t + s.skip(t.len() as int)
            &&& all_white(s.skip(t.len() as int))
            &&& t.len() > 0 ==> !is_white(t.last())
        }),
    decreases s.len(),
{
    let t = spec_trim_end(s);
    if s.len() > 0 && is_white(s.last()) {
        let rest = s.drop_last();
        law_trim_end_takes_only_white_space(rest);
        assert forall|i: int| 0 <= i < s.len() - t.len() implies is_white(
            #[trigger] s.skip(t.len() as int)[i],
        ) by {
            if i < s.len() - t.len() - 1 {
                assert(rest.skip(t.len() as int)[i] == s[t.len() + i]);
            }
        }
        assert(rest =~= t + rest.skip(t.len() as int));
        assert(s =~= t + s.skip(t.len() as int)) by {
            assert forall|i: int| 0 <= i < t.len() implies s[i] == t[i] by {
                assert(rest[i] == (t + rest.skip(t.len() as int))[i]);
            }
        }
    } else {
        assert(s =~= t + s.skip(t.len() as int));
    }
}

/// A line is its text, in full, and a line feed.
pub proof fn law_line_is_its_text(text: Seq<char>)
    ensures
        spec_line(text).len() == text.len() + 1,
        spec_line(text).drop_last() == text,
        spec_line(text).last() == '\n',
{
    reveal_strlit("\n");
    assert(spec_line(text).drop_last() =~= text);
}

/// The socket is in the session's runtime directory, or in `/tmp` where there is
/// none, under this program's name.
pub proof fn law_socket_is_in_its_directory(dir: Seq<u8>)
    ensures
        socket_dir(Some(dir)) == dir,
        socket_dir(None) == encode_utf8("/tmp"@),
{
}

/// A line holds a command if and only if it is that command's word once the white
/// space around it is gone.
pub proof fn law_only_words_are_commands(line: Seq<char>, c: Command)
    ensures
        Command::spec_parse(line) == Some(c) <==> spec_trim(line) == c.word(),
{
    lemma_words();
}

/// The client prints the reply that the daemon gave, for every reply that does
/// not end with white space.
pub proof fn law_reply_is_printed_as_given(reply: Seq<char>)
    requires
        reply.len() > 0 ==> !is_white(reply.last()),
    ensures
        spec_trim_end(spec_line(reply)) == reply,
{
    lemma_words();
    lemma_trim_end_of_padded(reply, "\n"@);
}

} // verus!
