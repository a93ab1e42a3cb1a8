//! Envelopes: the tagged message format for server-to-client traffic.
//!
//! Each envelope travels as one frame whose text is a newline-delimited tag
//! followed by the envelope's fields: `Chat\n<sender>\n<body>`,
//! `JoinEvent\n<name>` or `LeaveEvent\n<name>`.

use vstd::prelude::*;
use vstd::string::StrSliceExecFns;
use vstd::string::StringExecFns;

use crate::error::RatError;

verus! {

/// One server-to-client message.
#[derive(Debug, PartialEq, Eq)]
pub enum Envelope {
    /// A chat line relayed from another participant.
    Chat { sender: String, body: String },
    /// A participant came online.
    Join { name: String },
    /// A participant went offline.
    Leave { name: String },
}

/// The mathematical value of an envelope: its fields as character sequences.
pub enum EnvelopeModel {
    Chat { sender: Seq<char>, body: Seq<char> },
    Join { name: Seq<char> },
    Leave { name: Seq<char> },
}

impl View for Envelope {
    type V = EnvelopeModel;

    open spec fn view(&self) -> EnvelopeModel {
        match self {
            Envelope::Chat { sender, body } => EnvelopeModel::Chat {
                sender: sender@,
                body: body@,
            },
            Envelope::Join { name } => EnvelopeModel::Join { name: name@ },
            Envelope::Leave { name } => EnvelopeModel::Leave { name: name@ },
        }
    }
}

/// Wire text of a relayed chat line.
pub open spec fn chat_text(sender: Seq<char>, body: Seq<char>) -> Seq<char> {
    "Chat\n"@ + sender + "\n"@ + body
}

/// Wire text of a join notice.
pub open spec fn join_text(name: Seq<char>) -> Seq<char> {
    "JoinEvent\n"@ + name
}

/// Wire text of a leave notice.
pub open spec fn leave_text(name: Seq<char>) -> Seq<char> {
    "LeaveEvent\n"@ + name
}

/// The text an envelope puts on the wire.
pub open spec fn envelope_text(e: EnvelopeModel) -> Seq<char> {
    match e {
        EnvelopeModel::Chat { sender, body } => chat_text(sender, body),
        EnvelopeModel::Join { name } => join_text(name),
        EnvelopeModel::Leave { name } => leave_text(name),
    }
}

/// Writes an envelope in its wire form.
pub fn render(env: &Envelope) -> (r: String)
    ensures
        r@ == envelope_text(env@),
{
    let mut s = String::new();
    match env {
        Envelope::Chat { sender, body } => {
            s.append("Chat\n");
            s.append(sender.as_str());
            s.append("\n");
            s.append(body.as_str());
            proof {
                assert(s@ =~= chat_text(sender@, body@));
            }
        },
        Envelope::Join { name } => {
            s.append("JoinEvent\n");
            s.append(name.as_str());
            proof {
                assert(s@ =~= join_text(name@));
            }
        },
        Envelope::Leave { name } => {
            s.append("LeaveEvent\n");
            s.append(name.as_str());
            proof {
                assert(s@ =~= leave_text(name@));
            }
        },
    }
    s
}

/// Position of the first newline in `s`; `s.len()` when there is none.
pub open spec fn first_newline(s: Seq<char>) -> int
    decreases s.len(),
{
    if s.len() == 0 {
        0
    } else if s[0] == '\n' {
        0
    } else {
        1 + first_newline(s.skip(1))
    }
}

/// `first_newline` names the least position holding a newline.
pub proof fn lemma_first_newline(s: Seq<char>)
    ensures
        0 <= first_newline(s) <= s.len(),
        s.contains('\n') ==> first_newline(s) < s.len() && s[first_newline(s)] == '\n',
        forall|j: int| 0 <= j < first_newline(s) ==> s[j] != '\n',
        !s.contains('\n') ==> first_newline(s) == s.len(),
    decreases s.len(),
{
    if s.len() == 0 {
        assert(!s.contains('\n'));
    } else if s[0] == '\n' {
        assert(s.contains('\n'));
    } else {
        let t = s.skip(1);
        lemma_first_newline(t);
        assert(forall|j: int| 0 <= j < t.len() ==> t[j] == s[j + 1]);
        if t.contains('\n') {
            let j = choose|j: int| 0 <= j < t.len() && t[j] == '\n';
            assert(s[j + 1] == '\n');
            assert(s.contains('\n'));
        }
        if s.contains('\n') {
            let i = choose|i: int| 0 <= i < s.len() && s[i] == '\n';
            assert(i != 0);
            assert(t[i - 1] == '\n');
            assert(t.contains('\n'));
        }
        assert(forall|j: int| 1 <= j < first_newline(s) ==> s[j] == t[j - 1] && t[j - 1] != '\n');
    }
}

/// Any position holding a newline with none before it is `first_newline`.
pub proof fn lemma_first_newline_unique(s: Seq<char>, i: int)
    requires
        0 <= i < s.len(),
        s[i] == '\n',
        forall|j: int| 0 <= j < i ==> s[j] != '\n',
    ensures
        first_newline(s) == i,
{
    assert(s.contains('\n'));
    lemma_first_newline(s);
    let f = first_newline(s);
    if f < i {
        assert(s[f] != '\n');
    } else if f > i {
        assert(s[i] != '\n');
    }
}

/// The envelope a frame's text denotes, if it follows the format: a known
/// tag, a newline, and for a chat a second newline between sender and body.
pub open spec fn parse_envelope_text(s: Seq<char>) -> Option<EnvelopeModel> {
    if !s.contains('\n') {
        None
    } else {
        let tag = s.take(first_newline(s));
        let rest = s.skip(first_newline(s) + 1);
        if tag == "Chat"@ {
            if rest.contains('\n') {
                Some(
                    EnvelopeModel::Chat {
                        sender: rest.take(first_newline(rest)),
                        body: rest.skip(first_newline(rest) + 1),
                    },
                )
            } else {
                None
            }
        } else if tag == "JoinEvent"@ {
            Some(EnvelopeModel::Join { name: rest })
        } else if tag == "LeaveEvent"@ {
            Some(EnvelopeModel::Leave { name: rest })
        } else {
            None
        }
    }
}

/// True when the character sequences are equal.
fn str_eq(a: &str, b: &str) -> (r: bool)
    ensures
        r == (a@ == b@),
{
    let n = a.unicode_len();
    let m = b.unicode_len();
    if n != m {
        proof {
            assert(a@ != b@);
        }
        return false;
    }
    let mut i: usize = 0;
    while i < n
        invariant
            0 <= i <= n,
            n == a@.len(),
            n == b@.len(),
            forall|j: int| 0 <= j < i ==> a@[j] == b@[j],
        decreases n - i,
    {
        if a.get_char(i) != b.get_char(i) {
            proof {
                assert(a@ != b@);
            }
            return false;
        }
        i += 1;
    }
    proof {
        assert(a@ =~= b@);
    }
    true
}

/// Position of the first newline at or after `from`, or the text's length.
fn find_newline(s: &str, from: usize) -> (r: usize)
    requires
        from <= s@.len(),
        forall|j: int| 0 <= j < from ==> s@[j] != '\n',
    ensures
        r == first_newline(s@),
        r <= s@.len(),
{
    let n = s.unicode_len();
    let mut i: usize = from;
    while i < n
        invariant
            from <= i <= n,
            n == s@.len(),
            forall|j: int| 0 <= j < i ==> s@[j] != '\n',
        decreases n - i,
    {
        if s.get_char(i) == '\n' {
            proof {
                lemma_first_newline_unique(s@, i as int);
            }
            return i;
        }
        i += 1;
    }
    proof {
        assert(!s@.contains('\n'));
        lemma_first_newline(s@);
    }
    n
}

/// Reads an envelope from a frame's text, rejecting any other shape with
/// the offending text.
pub fn parse_envelope(s: &str) -> (r: Result<Envelope, RatError>)
    ensures
        parse_envelope_text(s@) matches Some(e) ==> (r matches Ok(env) && env@ == e),
        parse_envelope_text(s@) is None ==> (r matches Err(e) && e matches
            RatError::InvalidMessage(m) && m@ == s@),
{
    let n = s.unicode_len();
    let i = find_newline(s, 0);
    if i == n {
        proof {
            lemma_first_newline(s@);
            assert(!s@.contains('\n'));
        }
        return Err(RatError::InvalidMessage(String::from_str(s)));
    }
    proof {
        lemma_first_newline(s@);
        assert(s@.contains('\n'));
    }
    let tag = s.substring_char(0, i);
    let rest = s.substring_char(i + 1, n);
    proof {
        assert(tag@ == s@.take(first_newline(s@)));
        assert(rest@ == s@.skip(first_newline(s@) + 1));
    }
    if str_eq(tag, "Chat") {
        let m = rest.unicode_len();
        let j = find_newline(rest, 0);
        if j == m {
            proof {
                lemma_first_newline(rest@);
                assert(!rest@.contains('\n'));
            }
            return Err(RatError::InvalidMessage(String::from_str(s)));
        }
        proof {
            lemma_first_newline(rest@);
            assert(rest@.contains('\n'));
        }
        let sender = rest.substring_char(0, j);
        let body = rest.substring_char(j + 1, m);
        Ok(Envelope::Chat { sender: String::from_str(sender), body: String::from_str(body) })
    } else if str_eq(tag, "JoinEvent") {
        Ok(Envelope::Join { name: String::from_str(rest) })
    } else if str_eq(tag, "LeaveEvent") {
        Ok(Envelope::Leave { name: String::from_str(rest) })
    } else {
        Err(RatError::InvalidMessage(String::from_str(s)))
    }
}

/// Round-trip: an envelope whose chat sender holds no newline reads back
/// from its own wire text as itself.
pub proof fn lemma_envelope_round_trip(e: EnvelopeModel)
    requires
        e matches EnvelopeModel::Chat { sender, .. } ==> !sender.contains('\n'),
    ensures
        parse_envelope_text(envelope_text(e)) == Some(e),
{
    reveal_strlit("Chat\n");
    reveal_strlit("JoinEvent\n");
    reveal_strlit("LeaveEvent\n");
    reveal_strlit("Chat");
    reveal_strlit("JoinEvent");
    reveal_strlit("LeaveEvent");
    reveal_strlit("\n");
    match e {
        EnvelopeModel::Chat { sender, body } => {
            let s = chat_text(sender, body);
            assert(s[4] == '\n');
            assert(forall|j: int| 0 <= j < 4 ==> s[j] != '\n');
            lemma_first_newline_unique(s, 4);
            assert(s.contains('\n'));
            assert(s.take(4) =~= "Chat"@);
            let rest = s.skip(5);
            assert(rest =~= sender + "\n"@ + body);
            assert(rest[sender.len() as int] == '\n');
            assert(forall|j: int| 0 <= j < sender.len() ==> rest[j] == sender[j]);
            lemma_first_newline_unique(rest, sender.len() as int);
            assert(rest.contains('\n'));
            assert(rest.take(sender.len() as int) =~= sender);
            assert(rest.skip(sender.len() as int + 1) =~= body);
            assert("Chat"@ != "JoinEvent"@ && "Chat"@ != "LeaveEvent"@) by {
                assert("Chat"@.len() != "JoinEvent"@.len());
                assert("Chat"@.len() != "LeaveEvent"@.len());
            }
        },
        EnvelopeModel::Join { name } => {
            let s = join_text(name);
            assert(s[9] == '\n');
            assert(forall|j: int| 0 <= j < 9 ==> s[j] != '\n');
            lemma_first_newline_unique(s, 9);
            assert(s.contains('\n'));
            assert(s.take(9) =~= "JoinEvent"@);
            assert(s.skip(10) =~= name);
            assert("JoinEvent"@ != "Chat"@) by {
                assert("JoinEvent"@.len() != "Chat"@.len());
            }
        },
        EnvelopeModel::Leave { name } => {
            let s = leave_text(name);
            assert(s[10] == '\n');
            assert(forall|j: int| 0 <= j < 10 ==> s[j] != '\n');
            lemma_first_newline_unique(s, 10);
            assert(s.contains('\n'));
            assert(s.take(10) =~= "LeaveEvent"@);
            assert(s.skip(11) =~= name);
            assert("LeaveEvent"@ != "Chat"@ && "LeaveEvent"@ != "JoinEvent"@) by {
                assert("LeaveEvent"@.len() != "Chat"@.len());
                assert("LeaveEvent"@.len() != "JoinEvent"@.len());
            }
        },
    }
}

} // verus!
