use vstd::prelude::*;

use crate::address::{digits_val, mail_capture, parse_decimal, parse_mail_args, parse_rcpt_args,
    rcpt_capture};
use crate::command::{join_spaces, parse_command, tokens, Command, CommandError};
use crate::reply::{Reply, ReplyView};
use crate::state::State;
use crate::text::{str_eq, trim_crlf, trim_crlf_str, upper_seq};

verus! {

/// The largest message body, announced or received, that the server
/// accepts, in bytes.
pub const MAX_EMAIL_SIZE: usize = 73_400_320;

/// The fixed-point scale of the reject ratio: this value stands for
/// the ratio one, `0` for the ratio zero.
pub const RATIO_SCALE: u64 = 0x1_0000_0000;

/// The five bytes that end a message body on the wire:
/// CR LF `.` CR LF.
pub open spec fn body_terminator() -> Seq<u8> {
    seq![13u8, 10u8, 46u8, 13u8, 10u8]
}

/// A message buffer that ends in the body terminator.
pub open spec fn ends_with_terminator(m: Seq<u8>) -> bool {
    m.len() >= 5 && m.subrange(m.len() - 5, m.len() as int) == body_terminator()
}

/// The mathematical value of a session: the machine state and the
/// transaction data.
#[verifier::ext_equal]
pub struct SessionView {
    pub state: State,
    pub message: Seq<u8>,
    pub from: Seq<char>,
    pub recipients: Seq<Seq<char>>,
    pub reject_ratio: u64,
}

impl SessionView {
    /// The view after a transaction reset: the same state and ratio,
    /// the transaction data gone.
    pub open spec fn cleared(self) -> SessionView {
        SessionView { message: seq![], from: seq![], recipients: seq![], ..self }
    }

    /// The view with the machine moved to `state`.
    pub open spec fn at_state(self, state: State) -> SessionView {
        SessionView { state, ..self }
    }
}

/// One SMTP session: the protocol state machine together with the
/// transaction data it accumulates.  One instance serves one
/// connection and is driven by a single thread.
pub struct Protocol {
    pub message: Vec<u8>,
    pub state: State,
    pub from: String,
    pub recipients: Vec<String>,
    pub reject_ratio: u64,
}

impl View for Protocol {
    type V = SessionView;

    open spec fn view(&self) -> SessionView {
        SessionView {
            state: self.state,
            message: self.message@,
            from: self.from@,
            recipients: self.recipients.deep_view(),
            reject_ratio: self.reject_ratio,
        }
    }
}

/// The greeting sent when a session starts.
pub open spec fn greeting_reply() -> ReplyView {
    ReplyView { status: 220, lines: seq!["fakesmtpd ESMTP ready"@] }
}

/// The plain success reply.
pub open spec fn ok_reply() -> ReplyView {
    ReplyView { status: 250, lines: seq!["Ok"@] }
}

/// The `EHLO` reply: hostname and capability lines.
pub open spec fn ehlo_reply() -> ReplyView {
    ReplyView { status: 250, lines: seq!["fakesmtpd"@, "SIZE 73400320"@, "8BITMIME"@] }
}

/// The `HELO` reply: hostname only.
pub open spec fn helo_reply() -> ReplyView {
    ReplyView { status: 250, lines: seq!["fakesmtpd"@] }
}

/// The goodbye reply.
pub open spec fn bye_reply() -> ReplyView {
    ReplyView { status: 221, lines: seq!["Bye"@] }
}

/// The start-of-data prompt.
pub open spec fn data_reply() -> ReplyView {
    ReplyView { status: 354, lines: seq!["End data with <CR><LF>.<CR><LF>"@] }
}

/// The reply for an unknown or out-of-order command.
pub open spec fn unknown_reply() -> ReplyView {
    ReplyView { status: 500, lines: seq!["Invalid or out of order command"@] }
}

/// The reply for a malformed address.
pub open spec fn invalid_address_reply() -> ReplyView {
    ReplyView { status: 502, lines: seq!["Malformed email address"@] }
}

/// The reply for an oversized message.
pub open spec fn too_big_reply() -> ReplyView {
    ReplyView { status: 556, lines: seq!["Message size exceeds maximum allowed"@] }
}

/// The reply for a synthetically rejected recipient.
pub open spec fn unknown_user_reply() -> ReplyView {
    ReplyView { status: 550, lines: seq!["User unknown"@] }
}

/// The states in which `EHLO` and `HELO` are legal.
pub open spec fn hello_ok(state: State) -> bool {
    state == State::Establish || state == State::Mail || state == State::Rcpt
}

/// What `MAIL` does: the machine moves to `Rcpt` whatever the
/// argument holds; a matching argument records the sender (even when
/// the announced size is refused), and the reply grades the size
/// parameter; an argument without the address shape is answered with
/// the invalid-address reply.
pub open spec fn mail_step(pre: SessionView, post: SessionView, args: Seq<char>, r: ReplyView) -> bool {
    &&& post.state == State::Rcpt
    &&& post.message == pre.message
    &&& post.recipients == pre.recipients
    &&& post.reject_ratio == pre.reject_ratio
    &&& match mail_capture(args) {
        None => {
            &&& post.from == pre.from
            &&& r == invalid_address_reply()
        },
        Some((address, size)) => {
            &&& post.from == address
            &&& match size {
                None => r == ok_reply(),
                Some(digits) => if digits_val(digits) > usize::MAX as nat {
                    r == unknown_reply()
                } else if digits_val(digits) > MAX_EMAIL_SIZE as nat {
                    r == too_big_reply()
                } else {
                    r == ok_reply()
                },
            }
        },
    }
}

/// What `RCPT` does: a matching argument either appends the
/// recipient and succeeds or is synthetically rejected, as the
/// reject ratio directs — never rejected at ratio zero, always at
/// the full scale, and either way in between, where a random draw
/// decides; an argument without the address shape is answered with
/// the invalid-address reply.
pub open spec fn rcpt_step(pre: SessionView, post: SessionView, args: Seq<char>, r: ReplyView) -> bool {
    &&& post.state == State::Rcpt
    &&& post.message == pre.message
    &&& post.from == pre.from
    &&& post.reject_ratio == pre.reject_ratio
    &&& match rcpt_capture(args) {
        None => {
            &&& post.recipients == pre.recipients
            &&& r == invalid_address_reply()
        },
        Some(address) => {
            let accepted = post.recipients == pre.recipients.push(address) && r == ok_reply();
            let rejected = post.recipients == pre.recipients && r == unknown_user_reply();
            if pre.reject_ratio == 0 {
                accepted
            } else if pre.reject_ratio >= RATIO_SCALE {
                rejected
            } else {
                accepted || rejected
            }
        },
    }
}

/// The transition relation of the state machine over parsed
/// commands: given the session before and after, the verb and
/// arguments, and the reply, says whether the step is one the
/// machine takes.  Every verb/state combination is covered; the only
/// freedom left is the random draw inside `RCPT`.
pub open spec fn command_step(
    pre: SessionView,
    post: SessionView,
    verb: Seq<char>,
    args: Seq<char>,
    r: ReplyView,
) -> bool {
    if verb == "QUIT"@ {
        post == pre.at_state(State::Done) && r == bye_reply()
    } else if verb == "NOOP"@ {
        post == pre && r == ok_reply()
    } else if verb == "RSET"@ {
        post == pre.cleared().at_state(State::Mail) && r == ok_reply()
    } else if verb == "EHLO"@ && hello_ok(pre.state) {
        post == pre.at_state(State::Mail) && r == ehlo_reply()
    } else if verb == "HELO"@ && hello_ok(pre.state) {
        post == pre.at_state(State::Mail) && r == helo_reply()
    } else if verb == "MAIL"@ && pre.state == State::Mail {
        mail_step(pre, post, args, r)
    } else if verb == "RCPT"@ && pre.state == State::Rcpt {
        rcpt_step(pre, post, args, r)
    } else if verb == "DATA"@ && pre.state == State::Rcpt && pre.recipients.len() > 0 {
        post == pre.at_state(State::Data) && r == data_reply()
    } else {
        post == pre && r == unknown_reply()
    }
}

/// What one chunk of body bytes does while the machine is in `Data`:
/// a chunk that would grow the buffer past the maximum is refused
/// and changes nothing; otherwise it is appended, and if the buffer
/// then ends in the terminator the machine moves back to `Mail` with
/// the buffer cut after the message-ending CR LF.
pub open spec fn body_step(pre: SessionView, post: SessionView, chunk: Seq<u8>, st: BodyStatus) -> bool {
    if pre.message.len() + chunk.len() > MAX_EMAIL_SIZE {
        &&& st == BodyStatus::TooBig
        &&& post == pre
    } else {
        let m = pre.message + chunk;
        if ends_with_terminator(m) {
            &&& st == BodyStatus::Done
            &&& post == SessionView { state: State::Mail, message: m.take(m.len() - 3), ..pre }
        } else {
            &&& st == BodyStatus::NeedMore
            &&& post == SessionView { message: m, ..pre }
        }
    }
}

/// What one body chunk yields at the session surface: too big ends
/// the exchange with the oversize reply, a terminator ends it with
/// success and resets the transaction, and anything else asks for
/// more bytes.
pub open spec fn data_chunk_step(
    pre: SessionView,
    post: SessionView,
    chunk: Seq<u8>,
    r: Option<ReplyView>,
) -> bool {
    if pre.message.len() + chunk.len() > MAX_EMAIL_SIZE {
        &&& post == pre
        &&& r == Some(too_big_reply())
    } else {
        let m = pre.message + chunk;
        if ends_with_terminator(m) {
            &&& post == pre.cleared().at_state(State::Mail)
            &&& r == Some(ok_reply())
        } else {
            &&& post == SessionView { message: m, ..pre }
            &&& r == Option::<ReplyView>::None
        }
    }
}

/// What one body-ingestion step reported to its caller.
#[derive(Clone, Copy, Debug, PartialEq, Eq, Structural)]
pub enum BodyStatus {
    NeedMore,
    TooBig,
    Done,
}

/// Relies on `rand::random`: a uniformly distributed machine word;
/// nothing is assumed of which value comes back.
#[verifier::external_body]
fn random_draw() -> u32 {
    rand::random::<u32>()
}

/// The synthetic-rejection rule applied to one random draw, at a
/// ratio strictly between zero and the full scale: the recipient is
/// rejected when the draw (uniform over `[0, RATIO_SCALE)`) lands at
/// or above the ratio.  This is deliberately the literal rule the
/// server has always applied, kept for compatibility: at such
/// ratios the rejection probability is one minus the ratio over the
/// scale, not the ratio itself.
pub fn synthetic_reject(draw: u32, ratio: u64) -> (r: bool)
    ensures
        r == ((draw as u64) >= ratio),
{
    (draw as u64) >= ratio
}

impl Protocol {
    /// A fresh session: no transaction data, the machine not yet
    /// started, no synthetic rejection.
    pub fn new() -> (r: Self)
        ensures
            r@ == (SessionView {
                state: State::Invalid,
                message: seq![],
                from: seq![],
                recipients: seq![],
                reject_ratio: 0,
            }),
    {
        let r = Protocol {
            message: Vec::new(),
            state: State::Invalid,
            from: String::new(),
            recipients: Vec::new(),
            reject_ratio: 0,
        };
        proof {
            assert(r.recipients.deep_view() =~~= Seq::<Seq<char>>::empty());
            assert(r@ =~~= (SessionView {
                state: State::Invalid,
                message: seq![],
                from: seq![],
                recipients: seq![],
                reject_ratio: 0,
            }));
        }
        r
    }

    /// Fixes the synthetic-rejection ratio for this session, in
    /// units of [`RATIO_SCALE`] (the scale itself standing for one).
    pub fn set_reject_ratio(&mut self, ratio: u64)
        requires
            ratio <= RATIO_SCALE,
        ensures
            final(self)@ == (SessionView { reject_ratio: ratio, ..old(self)@ }),
    {
        self.reject_ratio = ratio;
    }

    /// Whether the machine is ready for body bytes.
    pub fn is_data(&self) -> (r: bool)
        ensures
            r == (self@.state == State::Data),
    {
        self.state == State::Data
    }

    /// Whether the machine has reached its terminal state.
    pub fn is_done(&self) -> (r: bool)
        ensures
            r == (self@.state == State::Done),
    {
        self.state == State::Done
    }

    /// Starts the session: the machine moves to `Establish` and the
    /// greeting goes out.
    pub fn start(&mut self) -> (r: Reply<'static>)
        ensures
            final(self)@ == old(self)@.at_state(State::Establish),
            r@ == greeting_reply(),
    {
        self.state = State::Establish;
        let r = Reply { status: 220, lines: vec!["fakesmtpd ESMTP ready"] };
        proof {
            assert(self@ =~~= old(self)@.at_state(State::Establish));
            assert(r@.lines =~~= greeting_reply().lines);
        }
        r
    }

    /// Consumes one raw client line: strips the trailing line
    /// terminator, parses the command and takes the machine step it
    /// names.  A line without a token leaves the session unchanged
    /// and is reported to the caller instead of being answered.
    pub fn process_command(&mut self, line: &str) -> (r: Result<Reply<'static>, CommandError>)
        ensures
            match r {
                Ok(reply) => {
                    let t = trim_crlf(line@);
                    &&& tokens(t).len() > 0
                    &&& command_step(
                        old(self)@,
                        final(self)@,
                        upper_seq(tokens(t)[0]),
                        join_spaces(tokens(t).drop_first()),
                        reply@,
                    )
                },
                Err(e) => {
                    &&& tokens(trim_crlf(line@)).len() == 0
                    &&& final(self)@ == old(self)@
                    &&& e == CommandError::InvalidCommand
                },
            },
    {
        let trimmed = trim_crlf_str(line);
        match parse_command(trimmed) {
            Ok(cmd) => Ok(self.command(&cmd)),
            Err(e) => Err(e),
        }
    }

    /// Takes the machine step a parsed command names.
    pub fn command(&mut self, cmd: &Command) -> (r: Reply<'static>)
        ensures
            command_step(old(self)@, final(self)@, cmd.verb@, cmd.args@, r@),
    {
        if str_eq(cmd.verb.as_str(), "QUIT") {
            self.state = State::Done;
            let r = Reply::bye();
            proof {
                assert(self@ =~~= old(self)@.at_state(State::Done));
                assert(r@ =~~= bye_reply());
            }
            r
        } else if str_eq(cmd.verb.as_str(), "NOOP") {
            let r = Reply::ok("Ok");
            proof {
                assert(r@ =~~= ok_reply());
            }
            r
        } else if str_eq(cmd.verb.as_str(), "RSET") {
            self.cleanup();
            self.state = State::Mail;
            let r = Reply::ok("Ok");
            proof {
                assert(self@ =~~= old(self)@.cleared().at_state(State::Mail));
                assert(r@ =~~= ok_reply());
            }
            r
        } else if str_eq(cmd.verb.as_str(), "EHLO") && self.hello_legal() {
            self.ehlo()
        } else if str_eq(cmd.verb.as_str(), "HELO") && self.hello_legal() {
            self.helo()
        } else if str_eq(cmd.verb.as_str(), "MAIL") && self.state == State::Mail {
            self.mail(cmd)
        } else if str_eq(cmd.verb.as_str(), "RCPT") && self.state == State::Rcpt {
            self.rcpt(cmd)
        } else if str_eq(cmd.verb.as_str(), "DATA") && self.state == State::Rcpt
            && self.recipients.len() > 0 {
            self.data()
        } else {
            let r = Reply::unknown_command();
            proof {
                assert(r@ =~~= unknown_reply());
            }
            r
        }
    }

    /// Whether `EHLO`/`HELO` are legal in the current state.
    fn hello_legal(&self) -> (r: bool)
        ensures
            r == hello_ok(self@.state),
    {
        self.state == State::Establish || self.state == State::Mail || self.state == State::Rcpt
    }

    /// Clears the transaction data: buffer, recipients, sender.
    fn cleanup(&mut self)
        ensures
            final(self)@ == old(self)@.cleared(),
    {
        self.message = Vec::new();
        self.recipients = Vec::new();
        self.from = String::new();
        proof {
            assert(self.recipients.deep_view() =~~= Seq::<Seq<char>>::empty());
            assert(self@ =~~= old(self)@.cleared());
        }
    }

    /// `EHLO`: move to `Mail` and list the capabilities.
    fn ehlo(&mut self) -> (r: Reply<'static>)
        ensures
            final(self)@ == old(self)@.at_state(State::Mail),
            r@ == ehlo_reply(),
    {
        self.state = State::Mail;
        let r = Reply::ok_many(vec!["fakesmtpd", "SIZE 73400320", "8BITMIME"]);
        proof {
            assert(self@ =~~= old(self)@.at_state(State::Mail));
            assert(r@.lines =~~= ehlo_reply().lines);
        }
        r
    }

    /// `HELO`: move to `Mail` and answer with the hostname.
    fn helo(&mut self) -> (r: Reply<'static>)
        ensures
            final(self)@ == old(self)@.at_state(State::Mail),
            r@ == helo_reply(),
    {
        self.state = State::Mail;
        let r = Reply::ok("fakesmtpd");
        proof {
            assert(self@ =~~= old(self)@.at_state(State::Mail));
            assert(r@ =~~= helo_reply());
        }
        r
    }

    /// `MAIL`: record the sender and grade the announced size.
    pub fn mail(&mut self, cmd: &Command) -> (r: Reply<'static>)
        ensures
            mail_step(old(self)@, final(self)@, cmd.args@, r@),
    {
        self.state = State::Rcpt;
        match parse_mail_args(cmd.args.as_str()) {
            None => {
                let r = Reply::invalid_address();
                proof {
                    assert(r@ =~~= invalid_address_reply());
                }
                r
            },
            Some((address, size)) => {
                self.from = address;
                match size {
                    None => {
                        let r = Reply::ok("Ok");
                        proof {
                            assert(r@ =~~= ok_reply());
                        }
                        r
                    },
                    Some(digits) => {
                        proof {
                            let t = cmd.args@;
                            let p = crate::address::mail_pos_from(t, 0);
                            let j = crate::address::space_run_end(t, p + 5);
                            let g = crate::address::gt_pos(t, j + 1);
                            let w = crate::address::space_run_end(t, g + 1);
                            assert(mail_capture(t) is Some);
                            assert(crate::address::mail_size_present(t, p));
                            assert(digits@ == crate::address::mail_size_at(t, p));
                            crate::address::lemma_digit_run_digits(t, w + 5);
                            assert(digits@ == t.subrange(
                                w + 5,
                                crate::address::digit_run_end(t, w + 5),
                            ));
                            assert forall|q: int| 0 <= q < digits@.len() implies crate::address::is_digit(
                                digits@[q],
                            ) by {
                                assert(digits@[q] == t[w + 5 + q]);
                            }
                        }
                        match parse_decimal(digits.as_str()) {
                            None => {
                                let r = Reply::unknown_command();
                                proof {
                                    assert(r@ =~~= unknown_reply());
                                }
                                r
                            },
                            Some(value) => {
                                if value > MAX_EMAIL_SIZE {
                                    let r = Reply::message_too_big();
                                    proof {
                                        assert(r@ =~~= too_big_reply());
                                    }
                                    r
                                } else {
                                    let r = Reply::ok("Ok");
                                    proof {
                                        assert(r@ =~~= ok_reply());
                                    }
                                    r
                                }
                            },
                        }
                    },
                }
            },
        }
    }

    /// `RCPT`: append the recipient, unless the reject ratio directs
    /// a synthetic rejection.
    pub fn rcpt(&mut self, cmd: &Command) -> (r: Reply<'static>)
        ensures
            rcpt_step(old(self)@, final(self)@, cmd.args@, r@),
    {
        self.state = State::Rcpt;
        match parse_rcpt_args(cmd.args.as_str()) {
            None => {
                let r = Reply::invalid_address();
                proof {
                    assert(r@ =~~= invalid_address_reply());
                }
                r
            },
            Some(address) => {
                let reject: bool;
                if self.reject_ratio == 0 {
                    reject = false;
                } else if self.reject_ratio >= RATIO_SCALE {
                    reject = true;
                } else {
                    let draw = random_draw();
                    reject = synthetic_reject(draw, self.reject_ratio);
                }
                if reject {
                    let r = Reply::unknown_user();
                    proof {
                        assert(r@ =~~= unknown_user_reply());
                    }
                    r
                } else {
                    let ghost pre = self.recipients.deep_view();
                    self.recipients.push(address);
                    let r = Reply::ok("Ok");
                    proof {
                        assert(self.recipients.deep_view() =~~= pre.push(address@));
                        assert(r@ =~~= ok_reply());
                    }
                    r
                }
            },
        }
    }

    /// `DATA`: move to `Data` and prompt for the body.
    fn data(&mut self) -> (r: Reply<'static>)
        ensures
            final(self)@ == old(self)@.at_state(State::Data),
            r@ == data_reply(),
    {
        self.state = State::Data;
        let r = Reply::data();
        proof {
            assert(self@ =~~= old(self)@.at_state(State::Data));
            assert(r@ =~~= data_reply());
        }
        r
    }

    /// Absorbs one chunk of body bytes, watching the size bound and
    /// the terminator, as [`body_step`] says.
    pub fn feed_body(&mut self, chunk: &[u8]) -> (st: BodyStatus)
        requires
            old(self)@.state == State::Data,
        ensures
            body_step(old(self)@, final(self)@, chunk@, st),
    {
        let ml = self.message.len();
        if ml > MAX_EMAIL_SIZE || chunk.len() > MAX_EMAIL_SIZE - ml {
            return BodyStatus::TooBig;
        }
        let mut k: usize = 0;
        while k < chunk.len()
            invariant
                k <= chunk@.len(),
                self@.message == old(self)@.message + chunk@.take(k as int),
                self@.state == old(self)@.state,
                self@.from == old(self)@.from,
                self@.recipients == old(self)@.recipients,
                self@.reject_ratio == old(self)@.reject_ratio,
            decreases chunk@.len() - k,
        {
            self.message.push(chunk[k]);
            k = k + 1;
            proof {
                assert(self@.message =~= old(self)@.message + chunk@.take(k as int));
            }
        }
        proof {
            assert(chunk@.take(chunk@.len() as int) =~= chunk@);
        }
        let l = self.message.len();
        if l >= 5 && self.message[l - 5] == 13 && self.message[l - 4] == 10 && self.message[l - 3]
            == 46 && self.message[l - 2] == 13 && self.message[l - 1] == 10 {
            proof {
                assert(self@.message.subrange(l - 5, l as int) =~= body_terminator());
            }
            self.message.truncate(l - 3);
            self.state = State::Mail;
            proof {
                let m = old(self)@.message + chunk@;
                assert(self@ =~~= (SessionView {
                    state: State::Mail,
                    message: m.take(m.len() - 3),
                    ..old(self)@
                }));
            }
            BodyStatus::Done
        } else {
            proof {
                let m = old(self)@.message + chunk@;
                if ends_with_terminator(m) {
                    assert(m[m.len() - 5] == 13 && m[m.len() - 4] == 10 && m[m.len() - 3] == 46
                        && m[m.len() - 2] == 13 && m[m.len() - 1] == 10);
                }
                assert(self@ =~~= (SessionView { message: m, ..old(self)@ }));
            }
            BodyStatus::NeedMore
        }
    }

    /// Consumes one chunk of body bytes at the session surface, as
    /// [`data_chunk_step`] says: the caller keeps reading until a
    /// reply comes back.
    pub fn process_data_chunk(&mut self, chunk: &[u8]) -> (r: Option<Reply<'static>>)
        requires
            old(self)@.state == State::Data,
        ensures
            data_chunk_step(old(self)@, final(self)@, chunk@, match r {
                Some(reply) => Some(reply@),
                None => None,
            }),
    {
        match self.feed_body(chunk) {
            BodyStatus::TooBig => {
                let r = Reply::message_too_big();
                proof {
                    assert(r@ =~~= too_big_reply());
                }
                Some(r)
            },
            BodyStatus::Done => {
                self.cleanup();
                self.state = State::Mail;
                let r = Reply::ok("Ok");
                proof {
                    assert(self@ =~~= old(self)@.cleared().at_state(State::Mail));
                    assert(r@ =~~= ok_reply());
                }
                Some(r)
            },
            BodyStatus::NeedMore => None,
        }
    }
}

/// The connection handler's counting rule after a command reply: a
/// rejection is tallied when the machine stood in `Rcpt` and the
/// reply status exceeds 500.  `state` is meant to be the machine
/// state from before the command was processed: the tally is for
/// recipients, so a `MAIL` answered 502 or 556 out of the `Mail`
/// state does not count.
pub fn count_rejected_command(state: State, status: u16) -> (r: bool)
    ensures
        r == (state == State::Rcpt && status > 500),
{
    state == State::Rcpt && status > 500
}

/// The connection handler's counting rule after a body exchange: a
/// final status of 400 or above counts the message as rejected,
/// anything below as accepted.
pub fn count_rejected_data(status: u16) -> (r: bool)
    ensures
        r == (status >= 400),
{
    status >= 400
}

/// `QUIT` is terminal: from any state it moves the machine to `Done`
/// and answers goodbye (status 221); nothing else of the session
/// changes.
pub proof fn lemma_quit_terminal(
    pre: SessionView,
    post: SessionView,
    args: Seq<char>,
    r: ReplyView,
)
    requires
        command_step(pre, post, "QUIT"@, args, r),
    ensures
        post.state == State::Done,
        r == bye_reply(),
        r.status == 221,
        post.message == pre.message,
        post.from == pre.from,
        post.recipients == pre.recipients,
{
}

/// At reject ratio zero no recipient is ever synthetically
/// rejected: two `RCPT` steps whose arguments carry addresses both
/// answer success and append their addresses to the recipient list,
/// in order.
pub proof fn lemma_rcpt_pair_at_zero_ratio(
    pre: SessionView,
    mid: SessionView,
    post: SessionView,
    args1: Seq<char>,
    args2: Seq<char>,
    a1: Seq<char>,
    a2: Seq<char>,
    r1: ReplyView,
    r2: ReplyView,
)
    requires
        pre.reject_ratio == 0,
        rcpt_step(pre, mid, args1, r1),
        rcpt_step(mid, post, args2, r2),
        rcpt_capture(args1) == Some(a1),
        rcpt_capture(args2) == Some(a2),
    ensures
        r1 == ok_reply(),
        r2 == ok_reply(),
        r1.status == 250,
        post.recipients == pre.recipients.push(a1).push(a2),
{
}

/// `DATA` is accepted exactly when the machine stands in `Rcpt` with
/// at least one recipient: then it answers the start-of-data prompt
/// (354) and moves to `Data`; in every other situation it falls to
/// the unknown-command reply (500) and nothing changes.
pub proof fn lemma_data_gate(pre: SessionView, post: SessionView, args: Seq<char>, r: ReplyView)
    requires
        command_step(pre, post, "DATA"@, args, r),
    ensures
        pre.state == State::Rcpt && pre.recipients.len() > 0 ==> post == pre.at_state(State::Data)
            && r == data_reply() && r.status == 354,
        !(pre.state == State::Rcpt && pre.recipients.len() > 0) ==> post == pre && r
            == unknown_reply() && r.status == 500,
{
    reveal_strlit("DATA");
    reveal_strlit("QUIT");
    reveal_strlit("NOOP");
    reveal_strlit("RSET");
    reveal_strlit("EHLO");
    reveal_strlit("HELO");
    reveal_strlit("MAIL");
    reveal_strlit("RCPT");
    assert(("DATA"@)[0] == 'D' && ("DATA"@)[1] == 'A');
    assert(("QUIT"@)[0] == 'Q');
    assert(("NOOP"@)[0] == 'N');
    assert(("RSET"@)[0] == 'R');
    assert(("EHLO"@)[0] == 'E');
    assert(("HELO"@)[0] == 'H');
    assert(("MAIL"@)[0] == 'M');
    assert(("RCPT"@)[1] == 'C');
    assert("DATA"@ != "QUIT"@);
    assert("DATA"@ != "NOOP"@);
    assert("DATA"@ != "RSET"@);
    assert("DATA"@ != "EHLO"@);
    assert("DATA"@ != "HELO"@);
    assert("DATA"@ != "MAIL"@);
    assert("DATA"@ != "RCPT"@);
}

} // verus!
