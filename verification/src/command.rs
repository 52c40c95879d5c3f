use vstd::prelude::*;
use vstd::string::StrSliceExecFns;
use vstd::string::StringExecFns;

use crate::relay::{
    spec_interprete_state, status_matches, DoubleRelay, DoubleRelayStatus, RelayError, RelayQuery,
};
use crate::text::str_eq;

verus! {

// ---------------------------------------------------------------------------
// The command grammar:  relay <name> <on|off> [for <duration>]
// with <duration> an integer directly followed by 'm' (minutes) or 'h'
// (hours).  Tokens are separated by single spaces.
// ---------------------------------------------------------------------------

/// What command handling can reject.
#[derive(Debug)]
pub enum CommandError {
    /// A required token is missing or the on/off word is malformed.
    InvalidCommand,
    /// The duration is shorter than two characters, has a unit other than
    /// 'm' or 'h', or its number does not parse as seconds that fit.
    InvalidUnit,
    /// "for" came without a duration after it.
    ExpectedDuration,
    /// The fourth token is something other than the word "for".
    PatternMismatch,
    /// The top-level keyword is not "relay".
    Unregistered,
    /// The command parsed but the relay bank refused it.
    Relay(RelayError),
}

impl CommandError {
    pub open spec fn spec_text(self) -> Seq<char> {
        match self {
            CommandError::InvalidCommand => "Invalid Command"@,
            CommandError::InvalidUnit => "Invalid unit, example: 1h (one hours)"@,
            CommandError::ExpectedDuration => "expected \"... for [duration]\""@,
            CommandError::PatternMismatch => "no matching pattern"@,
            CommandError::Unregistered => "unregister command"@,
            CommandError::Relay(e) => e.spec_text(),
        }
    }

    pub fn to_text(&self) -> (s: String)
        ensures
            s@ == self.spec_text(),
    {
        match self {
            CommandError::InvalidCommand => String::from_str("Invalid Command"),
            CommandError::InvalidUnit => String::from_str("Invalid unit, example: 1h (one hours)"),
            CommandError::ExpectedDuration => String::from_str("expected \"... for [duration]\""),
            CommandError::PatternMismatch => String::from_str("no matching pattern"),
            CommandError::Unregistered => String::from_str("unregister command"),
            CommandError::Relay(e) => e.to_text(),
        }
    }
}

// ---------------------------------------------------------------------------
// Splitting on spaces.
// ---------------------------------------------------------------------------

/// Index of the first space of `s`, or its length when it has none.
pub open spec fn first_space(s: Seq<char>) -> nat
    decreases s.len(),
{
    if s.len() == 0 {
        0
    } else if s[0] == ' ' {
        0
    } else {
        1 + first_space(s.skip(1))
    }
}

pub proof fn lemma_first_space(s: Seq<char>)
    ensures
        first_space(s) <= s.len(),
        forall|j: int| 0 <= j < first_space(s) ==> s[j] != ' ',
        first_space(s) < s.len() ==> s[first_space(s) as int] == ' ',
    decreases s.len(),
{
    if s.len() == 0 {
    } else if s[0] == ' ' {
    } else {
        lemma_first_space(s.skip(1));
        assert forall|j: int| 0 <= j < first_space(s) implies s[j] != ' ' by {
            if j > 0 {
                assert(s.skip(1)[j - 1] == s[j]);
            }
        }
        if first_space(s) < s.len() {
            assert(s.skip(1)[first_space(s) - 1] == s[first_space(s) as int]);
        }
    }
}

/// The index `i` with no space before it and a space (or the end) at it is
/// exactly `first_space`.
pub proof fn lemma_first_space_is(s: Seq<char>, i: int)
    requires
        0 <= i <= s.len(),
        forall|j: int| 0 <= j < i ==> s[j] != ' ',
        i < s.len() ==> s[i] == ' ',
    ensures
        first_space(s) == i,
    decreases s.len(),
{
    if i == 0 {
    } else {
        assert(s[0] != ' ');
        lemma_first_space_is(s.skip(1), i - 1);
    }
}

/// `s` split at every space: the tokens between spaces, in order, each
/// possibly empty.
pub open spec fn split_spaces(s: Seq<char>) -> Seq<Seq<char>>
    decreases s.len(),
{
    let i = first_space(s) as int;
    if i >= s.len() {
        seq![s]
    } else {
        seq![s.take(i)] + split_spaces(s.skip(i + 1))
    }
}

pub proof fn lemma_split_spaces_len(s: Seq<char>)
    ensures
        split_spaces(s).len() >= 1,
    decreases s.len(),
{
    lemma_first_space(s);
}

/// Index of the first space of `s`, or its length when it has none.
fn find_space(s: &str) -> (i: usize)
    ensures
        i == first_space(s@),
        i <= s@.len(),
{
    let n = s.unicode_len();
    let mut i: usize = 0;
    while i < n
        invariant
            i <= n,
            n == s@.len(),
            forall|j: int| 0 <= j < i ==> s@[j] != ' ',
        decreases n - i,
    {
        if s.get_char(i) == ' ' {
            proof {
                lemma_first_space_is(s@, i as int);
            }
            return i;
        }
        i += 1;
    }
    proof {
        lemma_first_space_is(s@, n as int);
    }
    n
}

/// `s` split at every space.
pub fn split_spaces_exec<'a>(s: &'a str) -> (r: Vec<&'a str>)
    ensures
        r.deep_view() == split_spaces(s@),
        r@.len() >= 1,
{
    let mut out: Vec<&'a str> = Vec::new();
    let mut rest: &'a str = s;
    loop
        invariant
            out.deep_view() + split_spaces(rest@) == split_spaces(s@),
        decreases rest@.len(),
    {
        let i = find_space(rest);
        let n = rest.unicode_len();
        if i >= n {
            out.push(rest);
            proof {
                assert(split_spaces(rest@) =~~= seq![rest@]);
                assert(out.deep_view() =~~= split_spaces(s@));
                lemma_split_spaces_len(s@);
            }
            return out;
        }
        let ghost prev = rest@;
        let ghost prev_out = out.deep_view();
        let tok = rest.substring_char(0, i);
        out.push(tok);
        rest = rest.substring_char(i + 1, n);
        proof {
            assert(tok@ =~= prev.take(i as int));
            assert(rest@ =~= prev.skip(i + 1));
            assert(split_spaces(prev) == seq![prev.take(i as int)] + split_spaces(prev.skip(i + 1)));
            assert(out.deep_view() =~~= prev_out + seq![tok@]);
            assert(out.deep_view() + split_spaces(rest@) =~~= split_spaces(s@));
        }
    }
}

// ---------------------------------------------------------------------------
// Parsing the duration number.
// ---------------------------------------------------------------------------

pub open spec fn is_digit(c: char) -> bool {
    '0' <= c <= '9'
}

pub open spec fn digit_val(c: char) -> int {
    c as int - '0' as int
}

pub open spec fn all_digits(s: Seq<char>) -> bool {
    forall|i: int| 0 <= i < s.len() ==> is_digit(#[trigger] s[i])
}

/// The number the digit string `s` denotes.
pub open spec fn digits_val(s: Seq<char>) -> int
    decreases s.len(),
{
    if s.len() == 0 {
        0
    } else {
        digits_val(s.drop_last()) * 10 + digit_val(s.last())
    }
}

proof fn lemma_digits_val_nonneg(s: Seq<char>)
    requires
        all_digits(s),
    ensures
        digits_val(s) >= 0,
    decreases s.len(),
{
    if s.len() > 0 {
        assert(all_digits(s.drop_last()));
        lemma_digits_val_nonneg(s.drop_last());
    }
}

/// A digit string's value only grows as digits are appended.
proof fn lemma_digits_val_prefix(s: Seq<char>, k: int)
    requires
        all_digits(s),
        0 <= k <= s.len(),
    ensures
        digits_val(s.take(k)) <= digits_val(s),
    decreases s.len() - k,
{
    if k < s.len() {
        lemma_digits_val_prefix(s, k + 1);
        let t = s.take(k + 1);
        assert(t.drop_last() =~= s.take(k));
        assert(all_digits(s.take(k)));
        lemma_digits_val_nonneg(s.take(k));
        assert(digits_val(t) == digits_val(s.take(k)) * 10 + digit_val(t.last()));
        assert(digits_val(s.take(k)) * 10 >= digits_val(s.take(k))) by (nonlinear_arith)
            requires
                digits_val(s.take(k)) >= 0,
        ;
    } else {
        assert(s.take(k) =~= s);
    }
}

/// The number an unsigned-decimal string denotes, as `str::parse::<u32>`
/// reads it: an optional leading '+', then one or more digits, rejecting
/// anything else and values beyond u32::MAX.
pub open spec fn spec_parse_u32(s: Seq<char>) -> Option<u32> {
    let body = if s.len() >= 1 && s[0] == '+' {
        s.skip(1)
    } else {
        s
    };
    if body.len() == 0 || !all_digits(body) {
        None
    } else if digits_val(body) > u32::MAX {
        None
    } else {
        Some(digits_val(body) as u32)
    }
}

/// Parse an unsigned decimal number that fits in 32 bits.
pub fn parse_u32(s: &str) -> (r: Option<u32>)
    ensures
        r == spec_parse_u32(s@),
{
    let n = s.unicode_len();
    let start: usize = if n >= 1 && s.get_char(0) == '+' {
        1
    } else {
        0
    };
    let ghost body = if start == 1 {
        s@.skip(1)
    } else {
        s@
    };
    if start >= n {
        return None;
    }
    let mut acc: u32 = 0;
    let mut i: usize = start;
    while i < n
        invariant
            start <= i <= n,
            n == s@.len(),
            start == 1 ==> body == s@.skip(1),
            start == 0 ==> body == s@,
            start <= 1,
            start < n,
            start == 1 <==> (s@.len() >= 1 && s@[0] == '+'),
            body.len() == n - start,
            forall|j: int| 0 <= j < i - start ==> is_digit(#[trigger] body[j]),
            acc == digits_val(body.take(i - start)),
        decreases n - i,
    {
        let c = s.get_char(i);
        let cv = c as u32;
        proof {
            assert(body[i - start] == s@[i as int]);
        }
        if cv < 48 || cv > 57 {
            proof {
                assert(!is_digit(body[i - start]));
                assert(!all_digits(body));
            }
            return None;
        }
        let d = cv - 48;
        let acc64 = (acc as u64) * 10 + (d as u64);
        proof {
            assert(body.take(i + 1 - start).drop_last() =~= body.take(i - start));
            assert(digits_val(body.take(i + 1 - start)) == acc * 10 + d);
        }
        if acc64 > u32::MAX as u64 {
            proof {
                if all_digits(body) {
                    lemma_digits_val_prefix(body, i + 1 - start);
                    assert(digits_val(body) > u32::MAX);
                }
            }
            return None;
        }
        acc = acc64 as u32;
        i += 1;
    }
    proof {
        assert(body.take(body.len() as int) =~= body);
    }
    Some(acc)
}

// ---------------------------------------------------------------------------
// The grammar itself.
// ---------------------------------------------------------------------------

/// The duration token's seconds: digits followed by 'm' for minutes or 'h'
/// for hours; too-short tokens, foreign units, unparsable numbers and
/// products beyond u32::MAX are all the unit error.
pub open spec fn spec_parse_duration(tok: Seq<char>) -> Result<u32, CommandError> {
    if tok.len() < 2 {
        Err(CommandError::InvalidUnit)
    } else {
        let unit = tok[tok.len() - 1];
        let mul: int = if unit == 'm' {
            60
        } else if unit == 'h' {
            3600
        } else {
            0
        };
        if mul == 0 {
            Err(CommandError::InvalidUnit)
        } else {
            match spec_parse_u32(tok.take(tok.len() - 1)) {
                None => Err(CommandError::InvalidUnit),
                Some(d) => if d * mul > u32::MAX {
                    Err(CommandError::InvalidUnit)
                } else {
                    Ok((d * mul) as u32)
                },
            }
        }
    }
}

pub fn parse_duration(tok: &str) -> (r: Result<u32, CommandError>)
    ensures
        r == spec_parse_duration(tok@),
{
    let n = tok.unicode_len();
    if n < 2 {
        return Err(CommandError::InvalidUnit);
    }
    let unit = tok.get_char(n - 1);
    let mul: u32 = if unit == 'm' {
        60
    } else if unit == 'h' {
        3600
    } else {
        return Err(CommandError::InvalidUnit);
    };
    let num = tok.substring_char(0, n - 1);
    proof {
        assert(num@ =~= tok@.take(n - 1));
    }
    let d = match parse_u32(num) {
        None => {
            return Err(CommandError::InvalidUnit);
        },
        Some(d) => d,
    };
    proof {
        assert((d as int) * (mul as int) <= 0xFFFF_FFFF * 3600) by (nonlinear_arith)
            requires
                d <= 0xFFFF_FFFFu32,
                mul <= 3600u32,
        ;
    }
    let prod = (d as u64) * (mul as u64);
    if prod > u32::MAX as u64 {
        Err(CommandError::InvalidUnit)
    } else {
        Ok(prod as u32)
    }
}

/// What the token list of a command denotes: the relay name, the
/// instruction (true for on), and the duration when one was given.
pub open spec fn spec_parse_query(toks: Seq<Seq<char>>) -> Result<
    (Seq<char>, bool, Option<u32>),
    CommandError,
> {
    if toks.len() == 0 {
        Err(CommandError::InvalidCommand)
    } else if toks[0] != "relay"@ {
        Err(CommandError::Unregistered)
    } else if toks.len() < 2 {
        Err(CommandError::InvalidCommand)
    } else if toks.len() < 3 {
        Err(CommandError::InvalidCommand)
    } else if toks[2] != "on"@ && toks[2] != "off"@ {
        Err(CommandError::InvalidCommand)
    } else {
        let name = toks[1];
        let instruction = toks[2] == "on"@;
        if toks.len() >= 4 {
            if toks[3] != "for"@ {
                Err(CommandError::PatternMismatch)
            } else if toks.len() < 5 {
                Err(CommandError::ExpectedDuration)
            } else {
                match spec_parse_duration(toks[4]) {
                    Err(e) => Err(e),
                    Ok(d) => Ok((name, instruction, Some(d))),
                }
            }
        } else {
            Ok((name, instruction, None))
        }
    }
}

/// Parse one command string into a relay query.
pub fn parse_relay_query<'a>(q: &'a str) -> (r: Result<RelayQuery<'a>, CommandError>)
    ensures
        ({
            match (r, spec_parse_query(split_spaces(q@))) {
                (Ok(rq), Ok(sq)) => (rq.name matches Some(nm) && nm@ == sq.0) && rq.instruction
                    == Some(sq.1) && rq.duration == sq.2,
                (Err(e1), Err(e2)) => e1 == e2,
                _ => false,
            }
        }),
{
    let toks = split_spaces_exec(q);
    let ghost stoks = split_spaces(q@);
    proof {
        assert(forall|i: int| 0 <= i < toks@.len() ==> toks@[i]@ == stoks[i]);
    }
    if !str_eq(toks[0], "relay") {
        return Err(CommandError::Unregistered);
    }
    if toks.len() < 3 {
        return Err(CommandError::InvalidCommand);
    }
    let instruction = if str_eq(toks[2], "on") {
        true
    } else if str_eq(toks[2], "off") {
        false
    } else {
        return Err(CommandError::InvalidCommand);
    };
    let name = toks[1];
    let duration: Option<u32> = if toks.len() >= 4 {
        if !str_eq(toks[3], "for") {
            return Err(CommandError::PatternMismatch);
        }
        if toks.len() < 5 {
            return Err(CommandError::ExpectedDuration);
        }
        match parse_duration(toks[4]) {
            Err(e) => {
                return Err(e);
            },
            Ok(d) => Some(d),
        }
    } else {
        None
    };
    Ok(RelayQuery { name: Some(name), instruction: Some(instruction), duration })
}

// ---------------------------------------------------------------------------
// Incoming messages and whole-command handling.
// ---------------------------------------------------------------------------

/// One fetched chat message, classified: text opening with '/' is a
/// command, and the query is the text with its first character stripped.
#[derive(Debug)]
pub struct BotQuery {
    pub chat_id: u32,
    pub q: String,
    pub is_command: bool,
}

impl Default for BotQuery {
    fn default() -> (r: Self)
        ensures
            r.chat_id == 0,
            r.q@ == Seq::<char>::empty(),
            !r.is_command,
    {
        BotQuery { chat_id: 0, q: String::new(), is_command: false }
    }
}

impl BotQuery {
    /// Classify one incoming message text for `chat_id`.
    pub fn from_message(chat_id: u32, text: &str) -> (r: BotQuery)
        ensures
            r.chat_id == chat_id,
            r.is_command == (text@.len() > 0 && text@[0] == '/'),
            text@.len() > 0 ==> r.q@ == text@.skip(1),
            text@.len() == 0 ==> r.q@ == text@,
    {
        let n = text.unicode_len();
        let is_command = n > 0 && text.get_char(0) == '/';
        let q = if n > 0 {
            let tail = text.substring_char(1, n);
            proof {
                assert(tail@ =~= text@.skip(1));
            }
            String::from_str(tail)
        } else {
            String::from_str(text)
        };
        BotQuery { chat_id, q, is_command }
    }
}

/// Parse the query of `q` and carry it out on the relay bank at time `now`,
/// answering with the affected relays' status or with the error.
pub fn run_command<'a>(q: &BotQuery, relay: &'a mut DoubleRelay, now: u64) -> (r: Result<
    DoubleRelayStatus<'a>,
    CommandError,
>)
    requires
        old(relay).well_formed(),
        now + u32::MAX <= u64::MAX,
    ensures
        final(relay).well_formed(),
        ({
            match spec_parse_query(split_spaces(q.q@)) {
                Err(e) => r is Err && r->Err_0 == e && *final(relay) == *old(relay),
                Ok(sq) => ({
                    let outcome = spec_interprete_state(
                        *old(relay),
                        Some(sq.0),
                        Some(sq.1),
                        sq.2,
                        now,
                    );
                    &&& *final(relay) == outcome.0
                    &&& (match outcome.1 {
                        Ok(addr) => r is Ok && status_matches(r->Ok_0, outcome.0, addr),
                        Err(e) => r is Err && r->Err_0 == CommandError::Relay(e),
                    })
                }),
            }
        }),
{
    let rq = match parse_relay_query(q.q.as_str()) {
        Err(e) => {
            return Err(e);
        },
        Ok(rq) => rq,
    };
    match relay.interprete(rq, now) {
        Ok(st) => Ok(st),
        Err(e) => Err(CommandError::Relay(e)),
    }
}

} // verus!
