//! Terminal sessions: plain text out of terminal output, and the keys that
//! detach from a session.
use vstd::prelude::*;

verus! {

// ------------------------------------------------------------------ plain text

/// Whether a byte ends a control sequence.
pub open spec fn ends_control(b: u8) -> bool {
    0x40 <= b <= 0x7e
}

/// What follows a control sequence (`ESC [`), up to its final byte.
pub open spec fn after_control(s: Seq<u8>) -> Seq<u8>
    decreases s.len(),
{
    if s.len() == 0 {
        s
    } else if ends_control(s[0]) {
        s.skip(1)
    } else {
        after_control(s.skip(1))
    }
}

/// What follows an operating system command (`ESC ]`), up to a bell or `ESC \`.
pub open spec fn after_command(s: Seq<u8>) -> Seq<u8>
    decreases s.len(),
{
    if s.len() == 0 {
        s
    } else if s[0] == 0x07 {
        s.skip(1)
    } else if s[0] == 0x1b && s.len() > 1 && s[1] == 0x5c {
        s.skip(2)
    } else {
        after_command(s.skip(1))
    }
}

/// A control sequence is not longer than what holds it.
pub proof fn lemma_after_shorter(s: Seq<u8>)
    ensures
        after_control(s).len() <= s.len(),
        after_command(s).len() <= s.len(),
    decreases s.len(),
{
    if s.len() > 0 {
        lemma_after_shorter(s.skip(1));
    }
}

/// The text without escape sequences, each line ended by a line feed alone.
pub open spec fn stripped(s: Seq<u8>) -> Seq<u8>
    decreases s.len(),
{
    proof {
        lemma_after_shorter(s.skip(2));
    }
    if s.len() == 0 {
        s
    } else if s[0] == 0x1b {
        if s.len() == 1 {
            Seq::empty()
        } else if s[1] == 0x5b {
            stripped(after_control(s.skip(2)))
        } else if s[1] == 0x5d {
            stripped(after_command(s.skip(2)))
        } else {
            stripped(s.skip(2))
        }
    } else if s[0] == 0x0d {
        if s.len() > 1 && s[1] == 0x0a {
            stripped(s.skip(1))
        } else {
            seq![0x0au8] + stripped(s.skip(1))
        }
    } else {
        seq![s[0]] + stripped(s.skip(1))
    }
}

/// The position behind the control sequence that starts at `from`.
fn skip_control(input: &[u8], from: usize) -> (out: usize)
    requires
        from <= input@.len(),
    ensures
        from <= out <= input@.len(),
        input@.skip(out as int) == after_control(input@.skip(from as int)),
{
    let mut i: usize = from;
    while i < input.len()
        invariant
            from <= i <= input@.len(),
            after_control(input@.skip(i as int)) == after_control(input@.skip(from as int)),
        decreases input@.len() - i,
    {
        assert(input@.skip(i as int).skip(1) =~= input@.skip(i + 1));
        if 0x40 <= input[i] && input[i] <= 0x7e {
            return i + 1;
        }
        i = i + 1;
    }
    i
}

/// The position behind the operating system command that starts at `from`.
fn skip_command(input: &[u8], from: usize) -> (out: usize)
    requires
        from <= input@.len(),
    ensures
        from <= out <= input@.len(),
        input@.skip(out as int) == after_command(input@.skip(from as int)),
{
    let mut i: usize = from;
    while i < input.len()
        invariant
            from <= i <= input@.len(),
            after_command(input@.skip(i as int)) == after_command(input@.skip(from as int)),
        decreases input@.len() - i,
    {
        assert(input@.skip(i as int).skip(1) =~= input@.skip(i + 1));
        if input[i] == 0x07 {
            return i + 1;
        }
        if input[i] == 0x1b && i + 1 < input.len() && input[i + 1] == 0x5c {
            assert(input@.skip(i as int).skip(2) =~= input@.skip(i + 2));
            return i + 2;
        }
        i = i + 1;
    }
    i
}

/// Strips escape sequences, and ends each line by a line feed alone.
pub fn strip_ansi(input: &[u8]) -> (out: Vec<u8>)
    ensures
        out@ == stripped(input@),
{
    let mut out: Vec<u8> = Vec::new();
    let mut i: usize = 0;
    assert(input@.skip(0) =~= input@);
    assert(out@ + stripped(input@) =~= stripped(input@));
    while i < input.len()
        invariant
            i <= input@.len(),
            out@ + stripped(input@.skip(i as int)) == stripped(input@),
        decreases input@.len() - i,
    {
        let ghost rest = input@.skip(i as int);
        assert(rest.skip(1) =~= input@.skip(i + 1));
        if input[i] == 0x1b {
            if i + 1 >= input.len() {
                i = i + 1;
                assert(stripped(input@.skip(i as int)) =~= stripped(rest));
            } else {
                assert(rest.skip(2) =~= input@.skip(i + 2));
                if input[i + 1] == 0x5b {
                    i = skip_control(input, i + 2);
                } else if input[i + 1] == 0x5d {
                    i = skip_command(input, i + 2);
                } else {
                    i = i + 2;
                }
            }
        } else if input[i] == 0x0d {
            if i + 1 < input.len() && input[i + 1] == 0x0a {
                i = i + 1;
            } else {
                let ghost done = out@;
                out.push(0x0a);
                i = i + 1;
                assert(out@ + stripped(rest.skip(1)) =~= done + (seq![0x0au8] + stripped(
                    rest.skip(1),
                )));
            }
        } else {
            let ghost done = out@;
            out.push(input[i]);
            assert(out@ + stripped(rest.skip(1)) =~= done + (seq![rest[0]] + stripped(
                rest.skip(1),
            )));
            i = i + 1;
        }
    }
    assert(input@.skip(i as int) =~= Seq::empty());
    assert(out@ + stripped(input@.skip(i as int)) =~= out@);
    out
}

/// The part of a log that is replayed to a user who attaches to its session: what
/// is left of it without escape sequences, up to `limit` bytes from its end.
pub open spec fn replayed(log: Seq<u8>, limit: nat) -> Seq<u8> {
    let plain = stripped(log);
    if plain.len() <= limit {
        plain
    } else {
        plain.skip(plain.len() - limit)
    }
}

/// The part of a log that is replayed to a user who attaches to its session.
pub fn replay_tail(log: &[u8], limit: usize) -> (out: Vec<u8>)
    ensures
        out@ == replayed(log@, limit as nat),
{
    let mut plain: Vec<u8> = strip_ansi(log);
    if plain.len() <= limit {
        return plain;
    }
    let start: usize = plain.len() - limit;
    let out: Vec<u8> = plain.split_off(start);
    assert(out@ =~= replayed(log@, limit as nat));
    out
}

/// Whether a text has neither escapes nor carriage returns.
pub open spec fn is_plain(s: Seq<u8>) -> bool {
    forall|i: int| 0 <= i < s.len() ==> #[trigger] s[i] != 0x1b && s[i] != 0x0d
}

/// A stripped text has neither escapes nor carriage returns.
pub proof fn law_stripped_is_plain(s: Seq<u8>)
    ensures
        is_plain(stripped(s)),
    decreases s.len(),
{
    if s.len() > 0 {
        lemma_after_shorter(s.skip(2));
        if s[0] == 0x1b {
            if s.len() > 1 {
                law_stripped_is_plain(after_control(s.skip(2)));
                law_stripped_is_plain(after_command(s.skip(2)));
                law_stripped_is_plain(s.skip(2));
            }
        } else {
            law_stripped_is_plain(s.skip(1));
        }
    }
}

/// A text that is plain is its own stripped text, so stripping twice is
/// stripping once.
pub proof fn law_plain_is_kept(s: Seq<u8>)
    requires
        is_plain(s),
    ensures
        stripped(s) == s,
    decreases s.len(),
{
    if s.len() > 0 {
        assert(s[0] != 0x1b && s[0] != 0x0d);
        assert forall|i: int| 0 <= i < s.skip(1).len() implies #[trigger] s.skip(1)[i] != 0x1b
            && s.skip(1)[i] != 0x0d by {
            assert(s.skip(1)[i] == s[i + 1]);
        }
        law_plain_is_kept(s.skip(1));
        assert(seq![s[0]] + s.skip(1) =~= s);
    }
}

// ------------------------------------------------------------------ detaching

/// The key that starts the detach sequence: Ctrl+].
pub const PREFIX_KEY: u8 = 0x1d;

/// Whether the detach sequence has started.
#[derive(Debug, Clone, Copy, PartialEq, Eq, Structural)]
pub enum PrefixKeyState {
    Normal,
    /// The prefix key came; the next key decides.
    GotPrefix,
}

/// What becomes of a key.
#[derive(Debug, Clone, PartialEq, Eq)]
pub enum RelayDecision {
    /// Bytes to forward to the session; none while the prefix key is held back.
    Forward(Vec<u8>),
    /// Detach from the session.
    Detach,
}

/// The contents of a decision.
pub enum DecisionView {
    Forward(Seq<u8>),
    Detach,
}

impl View for RelayDecision {
    type V = DecisionView;

    open spec fn view(&self) -> DecisionView {
        match *self {
            RelayDecision::Forward(bytes) => DecisionView::Forward(bytes@),
            RelayDecision::Detach => DecisionView::Detach,
        }
    }
}

/// Why a session was left.
#[derive(Debug, Clone, Copy, PartialEq, Eq, Structural)]
pub enum DetachReason {
    /// The user detached.
    UserDetach,
    /// The process exited.
    ProcessExit,
    /// The work of the session is done.
    AutoDetach,
}

/// What becomes of a key, and of the detach sequence. The prefix key twice
/// stands for one; before any other key but `d` it is forwarded with it.
pub open spec fn key_step(byte: u8, state: PrefixKeyState) -> (DecisionView, PrefixKeyState) {
    match state {
        PrefixKeyState::Normal => if byte == PREFIX_KEY {
            (DecisionView::Forward(Seq::empty()), PrefixKeyState::GotPrefix)
        } else {
            (DecisionView::Forward(seq![byte]), PrefixKeyState::Normal)
        },
        PrefixKeyState::GotPrefix => if byte == 0x64 {
            (DecisionView::Detach, PrefixKeyState::Normal)
        } else if byte == PREFIX_KEY {
            (DecisionView::Forward(seq![PREFIX_KEY]), PrefixKeyState::Normal)
        } else {
            (DecisionView::Forward(seq![PREFIX_KEY, byte]), PrefixKeyState::Normal)
        },
    }
}

/// Processes one byte of input.
pub fn process_byte(byte: u8, state: &mut PrefixKeyState) -> (out: RelayDecision)
    ensures
        (out@, *final(state)) == key_step(byte, *old(state)),
{
    let mut bytes: Vec<u8> = Vec::new();
    match *state {
        PrefixKeyState::Normal => {
            if byte == PREFIX_KEY {
                *state = PrefixKeyState::GotPrefix;
                assert(bytes@ =~= Seq::empty());
            } else {
                bytes.push(byte);
                assert(bytes@ =~= seq![byte]);
            }
        },
        PrefixKeyState::GotPrefix => {
            *state = PrefixKeyState::Normal;
            if byte == 0x64 {
                return RelayDecision::Detach;
            }
            bytes.push(PREFIX_KEY);
            if byte == PREFIX_KEY {
                assert(bytes@ =~= seq![PREFIX_KEY]);
            } else {
                bytes.push(byte);
                assert(bytes@ =~= seq![PREFIX_KEY, byte]);
            }
        },
    }
    RelayDecision::Forward(bytes)
}

/// What is forwarded of a series of keys, and whether it detaches; what follows
/// a detach is not looked at.
pub open spec fn relayed(keys: Seq<u8>, state: PrefixKeyState) -> (Seq<u8>, bool)
    decreases keys.len(),
{
    if keys.len() == 0 {
        (Seq::empty(), false)
    } else {
        let step = key_step(keys[0], state);
        match step.0 {
            DecisionView::Detach => (Seq::empty(), true),
            DecisionView::Forward(bytes) => {
                let rest = relayed(keys.skip(1), step.1);
                (bytes + rest.0, rest.1)
            },
        }
    }
}

/// A text in which the prefix key is doubled.
pub open spec fn doubled(keys: Seq<u8>) -> Seq<u8>
    decreases keys.len(),
{
    if keys.len() == 0 {
        keys
    } else if keys[0] == PREFIX_KEY {
        seq![PREFIX_KEY, PREFIX_KEY] + doubled(keys.skip(1))
    } else {
        seq![keys[0]] + doubled(keys.skip(1))
    }
}

/// Every text can be typed: with the prefix key doubled it is forwarded as it
/// is, and nothing detaches.
pub proof fn law_every_text_can_be_typed(keys: Seq<u8>)
    ensures
        relayed(doubled(keys), PrefixKeyState::Normal) == (keys, false),
    decreases keys.len(),
{
    if keys.len() > 0 {
        let rest = keys.skip(1);
        law_every_text_can_be_typed(rest);
        let typed = doubled(keys);
        if keys[0] == PREFIX_KEY {
            assert(typed.skip(1) =~= seq![PREFIX_KEY] + doubled(rest));
            assert(typed.skip(1).skip(1) =~= doubled(rest));
            assert(relayed(typed.skip(1), PrefixKeyState::GotPrefix) == (
                seq![PREFIX_KEY] + rest,
                false,
            ));
            assert(Seq::<u8>::empty() + (seq![PREFIX_KEY] + rest) =~= keys);
        } else {
            assert(typed.skip(1) =~= doubled(rest));
            assert(seq![keys[0]] + rest =~= keys);
        }
    }
}

/// The prefix key and `d` detach, whatever was typed before.
pub proof fn law_detach_sequence(keys: Seq<u8>)
    ensures
        relayed(doubled(keys) + seq![PREFIX_KEY, 0x64u8], PrefixKeyState::Normal) == (
            keys,
            true,
        ),
    decreases keys.len(),
{
    let typed = doubled(keys) + seq![PREFIX_KEY, 0x64u8];
    if keys.len() == 0 {
        assert(typed =~= seq![PREFIX_KEY, 0x64u8]);
        assert(typed.skip(1) =~= seq![0x64u8]);
        assert(relayed(typed.skip(1), PrefixKeyState::GotPrefix).1);
        assert(relayed(typed, PrefixKeyState::Normal).0 =~= keys);
    } else {
        let rest = keys.skip(1);
        law_detach_sequence(rest);
        let tail = doubled(rest) + seq![PREFIX_KEY, 0x64u8];
        if keys[0] == PREFIX_KEY {
            assert(typed.skip(1) =~= seq![PREFIX_KEY] + tail);
            assert(typed.skip(1).skip(1) =~= tail);
            assert(relayed(typed.skip(1), PrefixKeyState::GotPrefix) == (
                seq![PREFIX_KEY] + rest,
                true,
            ));
            assert(Seq::<u8>::empty() + (seq![PREFIX_KEY] + rest) =~= keys);
        } else {
            assert(typed.skip(1) =~= tail);
            assert(seq![keys[0]] + rest =~= keys);
        }
    }
}

/// Whether no byte of a text ends a control sequence.
pub open spec fn has_no_final(s: Seq<u8>) -> bool {
    forall|i: int| 0 <= i < s.len() ==> !(0x40 <= #[trigger] s[i] <= 0x7e)
}

/// What follows the byte that ends a control sequence is what follows the sequence.
proof fn lemma_control_ends(inner: Seq<u8>, end: u8, rest: Seq<u8>)
    requires
        has_no_final(inner),
        0x40 <= end <= 0x7e,
    ensures
        after_control(inner.push(end) + rest) == rest,
    decreases inner.len(),
{
    let s = inner.push(end) + rest;
    if inner.len() == 0 {
        assert(s[0] == end);
        assert(s.skip(1) =~= rest);
    } else {
        let shorter = inner.skip(1);
        assert(s[0] == inner[0]);
        assert forall|i: int| 0 <= i < shorter.len() implies !(0x40 <= #[trigger] shorter[i]
            <= 0x7e) by {
            assert(shorter[i] == inner[i + 1]);
        }
        lemma_control_ends(shorter, end, rest);
        assert(s.skip(1) =~= shorter.push(end) + rest);
    }
}

/// What follows the bell that ends an operating system command is what follows the
/// command.
proof fn lemma_command_ends(inner: Seq<u8>, rest: Seq<u8>)
    requires
        forall|i: int| 0 <= i < inner.len() ==> #[trigger] inner[i] != 0x07 && inner[i] != 0x1b,
    ensures
        after_command(inner.push(0x07) + rest) == rest,
        after_command(inner + seq![0x1bu8, 0x5cu8] + rest) == rest,
    decreases inner.len(),
{
    let bell = inner.push(0x07) + rest;
    let mark = inner + seq![0x1bu8, 0x5cu8] + rest;
    if inner.len() == 0 {
        assert(bell[0] == 0x07);
        assert(bell.skip(1) =~= rest);
        assert(mark[0] == 0x1b && mark[1] == 0x5c);
        assert(mark.skip(2) =~= rest);
    } else {
        let shorter = inner.skip(1);
        assert(bell[0] == inner[0] && mark[0] == inner[0]);
        assert forall|i: int| 0 <= i < shorter.len() implies #[trigger] shorter[i] != 0x07
            && shorter[i] != 0x1b by {
            assert(shorter[i] == inner[i + 1]);
        }
        lemma_command_ends(shorter, rest);
        assert(bell.skip(1) =~= shorter.push(0x07) + rest);
        assert(mark.skip(1) =~= shorter + seq![0x1bu8, 0x5cu8] + rest);
    }
}

/// Of a log, what is plain stays where it stands, each control sequence and each
/// operating system command goes as a whole and takes nothing with it, and a carriage
/// return is a line feed, or part of the one that follows.
pub proof fn law_sequences_go_alone(
    plain: Seq<u8>,
    inner: Seq<u8>,
    end: u8,
    title: Seq<u8>,
    rest: Seq<u8>,
)
    requires
        is_plain(plain),
        has_no_final(inner),
        0x40 <= end <= 0x7e,
        forall|i: int| 0 <= i < title.len() ==> #[trigger] title[i] != 0x07 && title[i] != 0x1b,
    ensures
        stripped(plain + rest) == plain + stripped(rest),
        stripped(seq![0x1bu8, 0x5bu8] + (inner.push(end) + rest)) == stripped(rest),
        stripped(seq![0x1bu8, 0x5du8] + (title.push(0x07) + rest)) == stripped(rest),
        stripped(seq![0x1bu8, 0x5du8] + (title + seq![0x1bu8, 0x5cu8] + rest)) == stripped(rest),
        stripped(seq![0x0du8, 0x0au8] + rest) == seq![0x0au8] + stripped(rest),
        rest.len() == 0 || rest[0] != 0x0a ==> stripped(seq![0x0du8] + rest) == seq![0x0au8]
            + stripped(rest),
    decreases plain.len(),
{
    lemma_control_ends(inner, end, rest);
    lemma_command_ends(title, rest);
    let control = inner.push(end) + rest;
    let bell = title.push(0x07) + rest;
    let mark = title + seq![0x1bu8, 0x5cu8] + rest;
    assert((seq![0x1bu8, 0x5bu8] + control).skip(2) =~= control);
    assert((seq![0x1bu8, 0x5du8] + bell).skip(2) =~= bell);
    assert((seq![0x1bu8, 0x5du8] + mark).skip(2) =~= mark);
    let both = seq![0x0du8, 0x0au8] + rest;
    assert(both.skip(1) =~= seq![0x0au8] + rest);
    let feed = seq![0x0au8] + rest;
    assert(feed.skip(1) =~= rest);
    assert(stripped(feed) == seq![0x0au8] + stripped(rest));
    assert(stripped(both) == stripped(both.skip(1)));
    assert((seq![0x0du8] + rest).skip(1) =~= rest);
    if plain.len() == 0 {
        assert(plain + rest =~= rest);
        assert(plain + stripped(rest) =~= stripped(rest));
    } else {
        let shorter = plain.skip(1);
        assert(plain[0] != 0x1b && plain[0] != 0x0d);
        assert forall|i: int| 0 <= i < shorter.len() implies #[trigger] shorter[i] != 0x1b
            && shorter[i] != 0x0d by {
            assert(shorter[i] == plain[i + 1]);
        }
        law_sequences_go_alone(shorter, inner, end, title, rest);
        assert((plain + rest).skip(1) =~= shorter + rest);
        assert((plain + rest)[0] == plain[0]);
        assert(seq![plain[0]] + (shorter + stripped(rest)) =~= plain + stripped(rest));
    }
}

/// What is replayed of a log is its end, as much as the limit allows, and all of it
/// where that is not more.
pub proof fn law_replay_is_the_end(log: Seq<u8>, limit: nat)
    ensures
        replayed(log, limit).len() == if stripped(log).len() <= limit {
            stripped(log).len()
        } else {
            limit
        },
        replayed(log, limit).is_suffix_of(stripped(log)),
{
    let plain = stripped(log);
    if plain.len() > limit {
        assert(plain.subrange(plain.len() - limit, plain.len() as int) =~= replayed(log, limit));
    } else {
        assert(plain.subrange(0, plain.len() as int) =~= plain);
    }
}

/// Keys go to the session one by one. The prefix key is held back for one key: `d`
/// behind it detaches, itself behind it goes once, and any other key goes with it.
pub proof fn law_keys_are_forwarded(key: u8)
    requires
        key != 0x1d,
    ensures
        key_step(key, PrefixKeyState::Normal) == (
            DecisionView::Forward(seq![key]),
            PrefixKeyState::Normal,
        ),
        key_step(0x1d, PrefixKeyState::Normal) == (
            DecisionView::Forward(Seq::empty()),
            PrefixKeyState::GotPrefix,
        ),
        key == 0x64 ==> key_step(key, PrefixKeyState::GotPrefix).0 is Detach,
        key != 0x64 ==> key_step(key, PrefixKeyState::GotPrefix) == (
            DecisionView::Forward(seq![0x1du8, key]),
            PrefixKeyState::Normal,
        ),
        key_step(0x1d, PrefixKeyState::GotPrefix) == (
            DecisionView::Forward(seq![0x1du8]),
            PrefixKeyState::Normal,
        ),
{
}

} // verus!
