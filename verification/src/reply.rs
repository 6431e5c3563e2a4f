use vstd::prelude::*;

use crate::text::push_char;

verus! {

/// The mathematical value of a reply: a status code and the text
/// lines, in order.
#[verifier::ext_equal]
pub struct ReplyView {
    pub status: u16,
    pub lines: Seq<Seq<char>>,
}

/// One SMTP reply: a three-digit status code and one or more text
/// lines.  A reply is built by the named constructors below, each
/// bound to the fixed code the protocol uses for it, and leaves the
/// process through [`Reply::render`].
#[derive(Debug)]
pub struct Reply<'a> {
    pub status: u16,
    pub lines: Vec<&'a str>,
}

impl<'a> View for Reply<'a> {
    type V = ReplyView;

    open spec fn view(&self) -> ReplyView {
        ReplyView { status: self.status, lines: self.lines.deep_view() }
    }
}

/// The decimal digit `d` as a character.
pub open spec fn digit_char(d: int) -> char {
    if d == 0 {
        '0'
    } else if d == 1 {
        '1'
    } else if d == 2 {
        '2'
    } else if d == 3 {
        '3'
    } else if d == 4 {
        '4'
    } else if d == 5 {
        '5'
    } else if d == 6 {
        '6'
    } else if d == 7 {
        '7'
    } else if d == 8 {
        '8'
    } else {
        '9'
    }
}

/// Exec mirror of [`digit_char`].
fn digit_char_of(d: u16) -> (r: char)
    requires
        d < 10,
    ensures
        r == digit_char(d as int),
{
    if d == 0 {
        '0'
    } else if d == 1 {
        '1'
    } else if d == 2 {
        '2'
    } else if d == 3 {
        '3'
    } else if d == 4 {
        '4'
    } else if d == 5 {
        '5'
    } else if d == 6 {
        '6'
    } else if d == 7 {
        '7'
    } else if d == 8 {
        '8'
    } else {
        '9'
    }
}

/// The decimal rendering of `n`, most significant digit first, with
/// no leading zeroes.
pub open spec fn dec_str(n: nat) -> Seq<char>
    decreases n,
{
    if n < 10 {
        seq![digit_char(n as int)]
    } else {
        dec_str(n / 10).push(digit_char((n % 10) as int))
    }
}

/// The decimal rendering of a status code.
fn dec_string(n: u16) -> (r: String)
    ensures
        r@ == dec_str(n as nat),
    decreases n,
{
    if n < 10 {
        let mut s = String::new();
        push_char(&mut s, digit_char_of(n));
        proof {
            assert(s@ =~= dec_str(n as nat));
        }
        s
    } else {
        let mut s = dec_string(n / 10);
        push_char(&mut s, digit_char_of(n % 10));
        proof {
            assert(s@ =~= dec_str(n as nat));
        }
        s
    }
}

/// The wire form of a reply: every line but the last is
/// `<code>-<text>\r\n` (the continuation marker), the last is
/// `<code> <text>\r\n`.  A reply without lines renders as nothing;
/// the constructors never build one.
pub open spec fn render_spec(status: u16, lines: Seq<Seq<char>>) -> Seq<char>
    decreases lines.len(),
{
    if lines.len() == 0 {
        seq![]
    } else if lines.len() == 1 {
        dec_str(status as nat) + seq![' '] + lines[0] + seq!['\r', '\n']
    } else {
        dec_str(status as nat) + seq!['-'] + lines[0] + seq!['\r', '\n'] + render_spec(
            status,
            lines.drop_first(),
        )
    }
}

impl<'a> Reply<'a> {
    /// A generic success reply carrying one caller-supplied line.
    pub fn ok(message: &'a str) -> (r: Self)
        ensures
            r@.status == 250,
            r@.lines == seq![message@],
    {
        let r = Reply { status: 250, lines: vec![message] };
        proof {
            assert(r@.lines =~~= seq![message@]);
        }
        r
    }

    /// A success reply carrying several lines, as the `EHLO`
    /// capability listing does.
    pub fn ok_many(messages: Vec<&'a str>) -> (r: Self)
        ensures
            r@.status == 250,
            r@.lines == messages.deep_view(),
    {
        Reply { status: 250, lines: messages }
    }

    /// The goodbye reply sent for `QUIT`.
    pub fn bye() -> (r: Self)
        ensures
            r@.status == 221,
            r@.lines == seq!["Bye"@],
    {
        let r = Reply { status: 221, lines: vec!["Bye"] };
        proof {
            assert(r@.lines =~~= seq!["Bye"@]);
        }
        r
    }

    /// The start-of-data prompt sent for an accepted `DATA`.
    pub fn data() -> (r: Self)
        ensures
            r@.status == 354,
            r@.lines == seq!["End data with <CR><LF>.<CR><LF>"@],
    {
        let r = Reply { status: 354, lines: vec!["End data with <CR><LF>.<CR><LF>"] };
        proof {
            assert(r@.lines =~~= seq!["End data with <CR><LF>.<CR><LF>"@]);
        }
        r
    }

    /// The reply for a verb that is unknown or out of order in the
    /// current state.
    pub fn unknown_command() -> (r: Self)
        ensures
            r@.status == 500,
            r@.lines == seq!["Invalid or out of order command"@],
    {
        let r = Reply { status: 500, lines: vec!["Invalid or out of order command"] };
        proof {
            assert(r@.lines =~~= seq!["Invalid or out of order command"@]);
        }
        r
    }

    /// The reply for a `MAIL` or `RCPT` argument that does not hold
    /// an address in angle brackets.
    pub fn invalid_address() -> (r: Self)
        ensures
            r@.status == 502,
            r@.lines == seq!["Malformed email address"@],
    {
        let r = Reply { status: 502, lines: vec!["Malformed email address"] };
        proof {
            assert(r@.lines =~~= seq!["Malformed email address"@]);
        }
        r
    }

    /// The reply for a message, announced or received, that exceeds
    /// the maximum size.
    pub fn message_too_big() -> (r: Self)
        ensures
            r@.status == 556,
            r@.lines == seq!["Message size exceeds maximum allowed"@],
    {
        let r = Reply { status: 556, lines: vec!["Message size exceeds maximum allowed"] };
        proof {
            assert(r@.lines =~~= seq!["Message size exceeds maximum allowed"@]);
        }
        r
    }

    /// The reply for a recipient that was synthetically rejected.
    pub fn unknown_user() -> (r: Self)
        ensures
            r@.status == 550,
            r@.lines == seq!["User unknown"@],
    {
        let r = Reply { status: 550, lines: vec!["User unknown"] };
        proof {
            assert(r@.lines =~~= seq!["User unknown"@]);
        }
        r
    }

    /// A reply for a recipient limit.  No transition of the state
    /// machine produces it; it is kept for interface parity.
    pub fn too_many_recipients() -> (r: Self)
        ensures
            r@.status == 452,
            r@.lines == seq!["Too many recipients"@],
    {
        let r = Reply { status: 452, lines: vec!["Too many recipients"] };
        proof {
            assert(r@.lines =~~= seq!["Too many recipients"@]);
        }
        r
    }

    /// The reply in wire form, ready to be written to the socket.
    pub fn render(&self) -> (r: String)
        ensures
            r@ == render_spec(self@.status, self@.lines),
    {
        let n = self.lines.len();
        let mut out = String::new();
        if n == 0 {
            proof {
                assert(out@ =~= render_spec(self@.status, self@.lines));
            }
            return out;
        }
        let code = dec_string(self.status);
        let mut i: usize = 0;
        proof {
            assert(self@.lines.skip(0) =~~= self@.lines);
        }
        while i < n - 1
            invariant
                0 < n == self.lines.len(),
                i < n,
                code@ == dec_str(self.status as nat),
                out@ + render_spec(self@.status, self@.lines.skip(i as int)) == render_spec(
                    self@.status,
                    self@.lines,
                ),
            decreases n - 1 - i,
        {
            out.append(code.as_str());
            push_char(&mut out, '-');
            out.append(self.lines[i]);
            push_char(&mut out, '\r');
            push_char(&mut out, '\n');
            proof {
                assert(self@.lines.skip(i as int).drop_first() =~~= self@.lines.skip(i + 1));
                assert(self@.lines.skip(i as int)[0] == self@.lines[i as int]);
                assert(out@ + render_spec(self@.status, self@.lines.skip(i + 1)) =~= render_spec(
                    self@.status,
                    self@.lines,
                ));
            }
            i = i + 1;
        }
        out.append(code.as_str());
        push_char(&mut out, ' ');
        out.append(self.lines[n - 1]);
        push_char(&mut out, '\r');
        push_char(&mut out, '\n');
        proof {
            assert(self@.lines.skip(n - 1 as int).len() == 1);
            assert(self@.lines.skip(n - 1 as int)[0] == self@.lines[n - 1 as int]);
            assert(out@ =~= render_spec(self@.status, self@.lines));
        }
        out
    }
}

} // verus!
