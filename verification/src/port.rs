//! Port candidates for servers and drivers that run side by side.
//!
//! A cursor walks through the range of ports and starts again at its lower
//! end once it has passed the upper one. A candidate is only a proposal: a
//! port is handed out after a probe has found that it can be bound.

use vstd::arithmetic::div_mod::{lemma_fundamental_div_mod_converse, lemma_mod_bound};
use vstd::prelude::*;

verus! {

/// Lowest port that is handed out.
pub const FIRST_PORT: u16 = 8000;

/// One more than the highest port that is handed out.
pub const PORT_LIMIT: u16 = 9000;

/// How many times the cursor is moved before a search gives up.
pub const MAX_ATTEMPTS: u32 = 1000;

/// What one move of the cursor yields.
#[derive(Debug, Clone, Copy, PartialEq, Eq, Structural)]
pub enum Dispensed {
    /// A port to probe.
    Candidate(u16),
    /// The cursor had passed the range and was set back to its beginning.
    Wrapped,
}

/// No port of the range could be bound within the allowed attempts.
#[derive(Debug, Clone, Copy, PartialEq, Eq, Structural)]
pub struct NoPortAvailable;

impl NoPortAvailable {
    /// The failure in words.
    pub fn message(&self) -> (text: &'static str)
        ensures
            text@ == "Could not find available port in range 8000-8999 after 1000 attempts"@,
    {
        "Could not find available port in range 8000-8999 after 1000 attempts"
    }
}

/// What a move yields when the cursor stands at `cursor`.
pub open spec fn dispensed_at(cursor: u16) -> Dispensed {
    if cursor >= PORT_LIMIT {
        Dispensed::Wrapped
    } else {
        Dispensed::Candidate(cursor)
    }
}

/// Where the cursor stands after a move from `cursor`.
pub open spec fn cursor_after(cursor: u16) -> u16 {
    if cursor >= PORT_LIMIT {
        FIRST_PORT
    } else {
        (cursor + 1) as u16
    }
}

/// Where the cursor stands after `moves` moves from `cursor`.
pub open spec fn cursor_after_moves(cursor: u16, moves: nat) -> u16
    decreases moves,
{
    if moves == 0 {
        cursor
    } else {
        cursor_after(cursor_after_moves(cursor, (moves - 1) as nat))
    }
}

/// What the move after `moves` earlier ones yields, counted from `cursor`.
pub open spec fn nth_dispensed(cursor: u16, moves: nat) -> Dispensed {
    dispensed_at(cursor_after_moves(cursor, moves))
}

/// A cursor within the range and its upper limit.
pub open spec fn in_range(cursor: u16) -> bool {
    FIRST_PORT <= cursor <= PORT_LIMIT
}

/// Length of one round of the cursor: each port once, then the wrap.
pub open spec fn round() -> int {
    PORT_LIMIT - FIRST_PORT + 1
}

/// The cursor moves in rounds: its place after some moves is its place
/// in the round, advanced by the moves.
pub proof fn lemma_cursor_moves_in_rounds(cursor: u16, moves: nat)
    requires
        in_range(cursor),
    ensures
        cursor_after_moves(cursor, moves) == FIRST_PORT + (cursor - FIRST_PORT + moves) % round(),
        in_range(cursor_after_moves(cursor, moves)),
    decreases moves,
{
    let offset = cursor - FIRST_PORT;
    if moves == 0 {
        lemma_fundamental_div_mod_converse(offset, round(), 0, offset);
    } else {
        lemma_cursor_moves_in_rounds(cursor, (moves - 1) as nat);
        let earlier = offset + moves - 1;
        lemma_mod_bound(earlier, round());
        let q = earlier / round();
        let r = earlier % round();
        vstd::arithmetic::div_mod::lemma_fundamental_div_mod(earlier, round());
        if r == round() - 1 {
            assert(earlier + 1 == (q + 1) * round() + 0) by (nonlinear_arith)
                requires
                    earlier == round() * q + r,
                    r == round() - 1,
            ;
            lemma_fundamental_div_mod_converse(earlier + 1, round(), q + 1, 0);
        } else {
            assert(earlier + 1 == q * round() + (r + 1)) by (nonlinear_arith)
                requires
                    earlier == round() * q + r,
            ;
            lemma_fundamental_div_mod_converse(earlier + 1, round(), q, r + 1);
        }
    }
}

/// When the cursor has passed the range, the move that follows the wrap
/// yields the lowest port again.
pub proof fn lemma_wraparound(cursor: u16)
    requires
        cursor >= PORT_LIMIT,
    ensures
        dispensed_at(cursor) == Dispensed::Wrapped,
        cursor_after(cursor) == FIRST_PORT,
        nth_dispensed(cursor, 1) == Dispensed::Candidate(FIRST_PORT),
{
    assert(cursor_after_moves(cursor, 1) == cursor_after(cursor_after_moves(cursor, 0)));
}

/// No port is proposed twice within one round: the candidates of two
/// different moves that lie less than a round apart differ. Moves of the
/// cursor are indivisible, so this holds of callers that run side by side,
/// whatever the order in which their moves fall.
pub proof fn lemma_candidates_are_distinct(cursor: u16, earlier: nat, later: nat)
    requires
        in_range(cursor),
        earlier < later,
        later - earlier < round(),
    ensures
        nth_dispensed(cursor, earlier) is Candidate ==> nth_dispensed(cursor, earlier)
            != nth_dispensed(cursor, later),
{
    lemma_cursor_moves_in_rounds(cursor, earlier);
    lemma_cursor_moves_in_rounds(cursor, later);
    let a = cursor - FIRST_PORT + earlier;
    let b = cursor - FIRST_PORT + later;
    if a % round() == b % round() {
        vstd::arithmetic::div_mod::lemma_fundamental_div_mod(a, round());
        vstd::arithmetic::div_mod::lemma_fundamental_div_mod(b, round());
        let qa = a / round();
        let qb = b / round();
        assert(b - a == round() * (qb - qa)) by (nonlinear_arith)
            requires
                a == round() * qa + a % round(),
                b == round() * qb + b % round(),
                a % round() == b % round(),
        ;
        assert(false) by (nonlinear_arith)
            requires
                b - a == round() * (qb - qa),
                0 < b - a < round(),
        ;
    }
}

/// Moves add up: moving on from where some moves have led is moving that
/// many more times.
pub proof fn lemma_moves_add_up(cursor: u16, first: nat, more: nat)
    ensures
        cursor_after_moves(cursor_after_moves(cursor, first), more) == cursor_after_moves(
            cursor,
            first + more,
        ),
    decreases more,
{
    if more > 0 {
        lemma_moves_add_up(cursor, first, (more - 1) as nat);
    }
}

/// Two searches in a row never end on the same port: the candidate that
/// ended the first differs from every candidate that the allowed moves of
/// the second can reach.
pub proof fn lemma_successive_searches_differ(cursor: u16, first: nat, second: nat)
    requires
        in_range(cursor),
        second < MAX_ATTEMPTS,
    ensures
        nth_dispensed(cursor, first) is Candidate ==> nth_dispensed(
            cursor_after_moves(cursor, first + 1),
            second,
        ) != nth_dispensed(cursor, first),
{
    lemma_moves_add_up(cursor, first + 1, second);
    lemma_candidates_are_distinct(cursor, first, first + 1 + second);
}

/// The cursor from which port candidates are dispensed.
pub struct PortFinder {
    cursor: u16,
}

impl PortFinder {
    #[verifier::type_invariant]
    spec fn well_formed(self) -> bool {
        in_range(self.cursor)
    }

    /// Where the cursor stands.
    pub closed spec fn cursor(&self) -> u16 {
        self.cursor
    }

    /// A cursor at the lowest port.
    pub fn new() -> (finder: Self)
        ensures
            finder.cursor() == FIRST_PORT,
    {
        PortFinder { cursor: FIRST_PORT }
    }

    /// Moves the cursor once: yields the port it stood at and steps to the
    /// next one, or, past the range, goes back to the lowest port.
    pub fn dispense(&mut self) -> (dispensed: Dispensed)
        ensures
            in_range(old(self).cursor()),
            dispensed == dispensed_at(old(self).cursor()),
            final(self).cursor() == cursor_after(old(self).cursor()),
            dispensed matches Dispensed::Candidate(port) ==> FIRST_PORT <= port < PORT_LIMIT,
    {
        proof {
            use_type_invariant(&*self);
        }
        let port = self.cursor;
        if port >= PORT_LIMIT {
            self.cursor = FIRST_PORT;
            Dispensed::Wrapped
        } else {
            self.cursor = port + 1;
            Dispensed::Candidate(port)
        }
    }

    /// Searches for a port that `probe` finds bindable, moving the cursor at
    /// most `MAX_ATTEMPTS` times.
    ///
    /// The port returned is the first candidate for which the probe answered
    /// yes; the search fails when the probe answered no for every candidate
    /// of the allowed moves.
    pub fn get_available_port<F: Fn(u16) -> bool>(&mut self, probe: F) -> (result: Result<
        u16,
        NoPortAvailable,
    >)
        requires
            forall|port: u16| FIRST_PORT <= port < PORT_LIMIT ==> call_requires(probe, (port,)),
        ensures
            match result {
                Ok(port) => exists|moves: nat|
                    {
                        &&& moves < MAX_ATTEMPTS
                        &&& #[trigger] nth_dispensed(old(self).cursor(), moves)
                            == Dispensed::Candidate(port)
                        &&& FIRST_PORT <= port < PORT_LIMIT
                        &&& call_ensures(probe, (port,), true)
                        &&& all_refused(probe, old(self).cursor(), moves)
                        &&& final(self).cursor() == cursor_after_moves(
                            old(self).cursor(),
                            moves + 1,
                        )
                    },
                Err(_) => {
                    &&& all_refused(probe, old(self).cursor(), MAX_ATTEMPTS as nat)
                    &&& final(self).cursor() == cursor_after_moves(
                        old(self).cursor(),
                        MAX_ATTEMPTS as nat,
                    )
                },
            },
    {
        let ghost start = self.cursor();
        let mut attempt: u32 = 0;
        while attempt < MAX_ATTEMPTS
            invariant
                attempt <= MAX_ATTEMPTS,
                start == old(self).cursor(),
                self.cursor() == cursor_after_moves(start, attempt as nat),
                all_refused(probe, start, attempt as nat),
                forall|port: u16| FIRST_PORT <= port < PORT_LIMIT ==> call_requires(probe, (port,)),
            decreases MAX_ATTEMPTS - attempt,
        {
            let dispensed = self.dispense();
            assert(dispensed == nth_dispensed(start, attempt as nat));
            match dispensed {
                Dispensed::Wrapped => {},
                Dispensed::Candidate(port) => {
                    if probe(port) {
                        proof {
                            let moves = attempt as nat;
                            assert(cursor_after_moves(start, moves + 1) == cursor_after(
                                cursor_after_moves(start, moves),
                            ));
                            assert(nth_dispensed(start, moves) == Dispensed::Candidate(port));
                        }
                        return Ok(port);
                    }
                },
            }
            attempt = attempt + 1;
        }
        Err(NoPortAvailable)
    }
}

/// The probe answered no for every candidate of the first `moves` moves
/// from `cursor`.
pub open spec fn all_refused<F: Fn(u16) -> bool>(probe: F, cursor: u16, moves: nat) -> bool {
    forall|earlier: nat|
        earlier < moves ==> ((#[trigger] nth_dispensed(cursor, earlier))
            matches Dispensed::Candidate(port) ==> call_ensures(probe, (port,), false))
}

} // verus!
