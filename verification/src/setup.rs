//! Setup commands from the front end.
//!
//! The display layer hands the backend one line to start a role:
//! `CONNECT:<host>:<port>:<username>` for a client session and
//! `START:<room>:<port>:<logging>` for a server. Both are split on
//! `:`; a port that does not parse falls back to 8080, and the
//! logging flag is `yes` in any letter case.

use vstd::prelude::*;
use crate::text::{chars_of, is_u16_text, parse_u16, string_of, u16_value};

verus! {

/// The pieces of `s` between occurrences of `sep`; always at least
/// one piece.
pub open spec fn split_on(s: Seq<char>, sep: char) -> Seq<Seq<char>>
    decreases s.len(),
{
    if s.len() == 0 {
        seq![Seq::<char>::empty()]
    } else if s[0] == sep {
        seq![Seq::<char>::empty()] + split_on(s.drop_first(), sep)
    } else {
        let rest = split_on(s.drop_first(), sep);
        seq![seq![s[0]] + rest[0]] + rest.drop_first()
    }
}

/// A split always yields at least one piece.
pub proof fn lemma_split_nonempty(s: Seq<char>, sep: char)
    ensures
        split_on(s, sep).len() >= 1,
    decreases s.len(),
{
    if s.len() > 0 && s[0] != sep {
        lemma_split_nonempty(s.drop_first(), sep);
    }
}

/// The character sequences of the strings in `ss`, in order.
pub open spec fn seq_views(ss: Seq<String>) -> Seq<Seq<char>> {
    Seq::new(ss.len(), |i: int| ss[i]@)
}

/// Exec mirror of [`split_on`].
fn split_string(v: &Vec<char>, sep: char) -> (r: Vec<String>)
    ensures
        seq_views(r@) == split_on(v@, sep),
        r@.len() >= 1,
{
    let ghost s = v@;
    let mut done: Vec<String> = Vec::new();
    let mut cur: Vec<char> = Vec::new();
    let mut i: usize = 0;
    proof {
        assert(s.skip(0) =~= s);
    }
    while i < v.len()
        invariant
            i <= s.len(),
            v@ == s,
            split_on(s, sep) == seq_views(done@) + (seq![cur@ + split_on(s.skip(i as int), sep)[0]]
                + split_on(s.skip(i as int), sep).drop_first()),
        decreases s.len() - i,
    {
        let c = v[i];
        proof {
            assert(s.skip(i as int)[0] == s[i as int]);
            assert(s.skip(i as int).drop_first() =~= s.skip(i + 1));
            lemma_split_nonempty(s.skip(i + 1), sep);
        }
        if c == sep {
            let seg = string_of(cur.as_slice());
            proof {
                let r1 = split_on(s.skip(i + 1), sep);
                assert(cur@ + split_on(s.skip(i as int), sep)[0] =~= cur@);
                assert(seq_views(done@.push(seg)) =~= seq_views(done@) + seq![cur@]);
                assert(seq![r1[0]] + r1.drop_first() =~= r1);
                assert(seq_views(done@) + (seq![cur@ + split_on(s.skip(i as int), sep)[0]]
                    + split_on(s.skip(i as int), sep).drop_first()) =~= seq_views(done@.push(seg))
                    + (seq![r1[0]] + r1.drop_first()));
            }
            done.push(seg);
            cur = Vec::new();
            proof {
                assert(cur@ =~= Seq::<char>::empty());
                assert(cur@ + split_on(s.skip(i + 1), sep)[0] =~= split_on(s.skip(i + 1), sep)[0]);
            }
        } else {
            proof {
                let r1 = split_on(s.skip(i + 1), sep);
                assert(cur@ + split_on(s.skip(i as int), sep)[0] =~= cur@.push(c) + r1[0]);
                assert(split_on(s.skip(i as int), sep).drop_first() =~= r1.drop_first());
            }
            cur.push(c);
        }
        i = i + 1;
    }
    proof {
        assert(s.skip(s.len() as int) =~= Seq::<char>::empty());
        assert(cur@ + split_on(s.skip(s.len() as int), sep)[0] =~= cur@);
        assert(split_on(s, sep) =~= seq_views(done@) + seq![cur@]);
    }
    let seg = string_of(cur.as_slice());
    proof {
        assert(seq_views(done@.push(seg)) =~= seq_views(done@) + seq![cur@]);
    }
    done.push(seg);
    done
}

/// What a client session needs to open its connection.
#[derive(Debug)]
pub struct ConnectRequest {
    pub host: String,
    pub port: String,
    pub username: String,
}

/// Why a connection request line is refused.
#[derive(Clone, Copy, Debug, PartialEq, Eq, Structural)]
pub enum ConnectError {
    /// The line does not begin with the connect keyword.
    BadFormat,
    /// The line has fewer pieces than host, port and username.
    MissingParts,
}

/// Reading of a `CONNECT` line: host, port and username, or the
/// reason it is refused.
pub open spec fn connect_parse(s: Seq<char>) -> Result<
    (Seq<char>, Seq<char>, Seq<char>),
    ConnectError,
> {
    let parts = split_on(s, ':');
    if !(parts.len() >= 2 && parts[0] == "CONNECT"@) {
        Err(ConnectError::BadFormat)
    } else if parts.len() < 4 {
        Err(ConnectError::MissingParts)
    } else {
        Ok((parts[1], parts[2], parts[3]))
    }
}

/// Read a `CONNECT:<host>:<port>:<username>` line.
pub fn parse_connect_request(s: &str) -> (r: Result<ConnectRequest, ConnectError>)
    ensures
        r is Ok <==> connect_parse(s@) is Ok,
        r matches Ok(c) ==> connect_parse(s@) == Ok::<_, ConnectError>(
            (c.host@, c.port@, c.username@),
        ),
        r matches Err(e) ==> connect_parse(s@) == Err::<(Seq<char>, Seq<char>, Seq<char>), _>(e),
{
    let cs = chars_of(s);
    let parts = split_string(&cs, ':');
    if !(parts.len() >= 2 && parts[0] == "CONNECT".to_owned()) {
        proof {
            assert(seq_views(parts@)[0] == parts@[0]@);
        }
        Err(ConnectError::BadFormat)
    } else if parts.len() < 4 {
        Err(ConnectError::MissingParts)
    } else {
        proof {
            assert(seq_views(parts@)[1] == parts@[1]@);
            assert(seq_views(parts@)[2] == parts@[2]@);
            assert(seq_views(parts@)[3] == parts@[3]@);
        }
        Ok(
            ConnectRequest {
                host: parts[1].clone(),
                port: parts[2].clone(),
                username: parts[3].clone(),
            },
        )
    }
}

/// What a server needs to start: room label, listen port, and
/// whether to log the transcript.
pub struct ServerSetup {
    pub room: String,
    pub port: u16,
    pub logging: bool,
}

/// Is `s` the word `yes` in any letter case?
pub open spec fn is_yes(s: Seq<char>) -> bool {
    s.len() == 3 && (s[0] == 'y' || s[0] == 'Y') && (s[1] == 'e' || s[1] == 'E') && (s[2] == 's'
        || s[2] == 'S')
}

/// The port named by `p`, or 8080 where `p` is no port number.
pub open spec fn port_or_default(p: Seq<char>) -> u16 {
    if is_u16_text(p) {
        u16_value(p) as u16
    } else {
        8080
    }
}

/// Reading of a `START` line: room, port and logging flag, or
/// nothing where the line is no start command.
pub open spec fn start_parse(s: Seq<char>) -> Option<(Seq<char>, u16, bool)> {
    let parts = split_on(s, ':');
    if !(parts.len() >= 4 && parts[0] == "START"@) {
        None
    } else {
        Some((parts[1], port_or_default(parts[2]), is_yes(parts[3])))
    }
}

/// Read a `START:<room>:<port>:<logging>` line. Anything else is
/// ignored, as the server keeps waiting for its configuration.
pub fn parse_start_command(s: &str) -> (r: Option<ServerSetup>)
    ensures
        r is Some <==> start_parse(s@) is Some,
        r matches Some(c) ==> start_parse(s@) == Some((c.room@, c.port, c.logging)),
{
    let cs = chars_of(s);
    let parts = split_string(&cs, ':');
    if !(parts.len() >= 4 && parts[0] == "START".to_owned()) {
        proof {
            assert(seq_views(parts@)[0] == parts@[0]@);
        }
        None
    } else {
        proof {
            assert(seq_views(parts@)[1] == parts@[1]@);
            assert(seq_views(parts@)[2] == parts@[2]@);
            assert(seq_views(parts@)[3] == parts@[3]@);
        }
        let port_chars = chars_of(parts[2].as_str());
        let port = match parse_u16(&port_chars) {
            Some(p) => p,
            None => 8080,
        };
        let flag = chars_of(parts[3].as_str());
        let logging = flag.len() == 3 && (flag[0] == 'y' || flag[0] == 'Y') && (flag[1] == 'e'
            || flag[1] == 'E') && (flag[2] == 's' || flag[2] == 'S');
        Some(ServerSetup { room: parts[1].clone(), port, logging })
    }
}

} // verus!
