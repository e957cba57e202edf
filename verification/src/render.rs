use vstd::prelude::*;

use crate::poll::CardCounts;

verus! {

/// Output shape: `short` gives the bare `<due> / <new>` pair, `json`
/// wraps the chosen message in a machine-readable record.
#[derive(Clone, Copy, PartialEq, Eq, Structural, Debug)]
pub struct Format {
    pub short: bool,
    pub json: bool,
}

/// The decimal digit character for `d < 10`.
pub open spec fn spec_digit(d: nat) -> char {
    if d == 0 {
        '0'
    } else if d == 1 {
        '1'
    } else if d == 2 {
        '2'
    } else if d == 3 {
        '3'
    } else if d == 4 {
        '4'
    } else if d == 5 {
        '5'
    } else if d == 6 {
        '6'
    } else if d == 7 {
        '7'
    } else if d == 8 {
        '8'
    } else {
        '9'
    }
}

/// The decimal numeral of `n`, most significant digit first, with no
/// leading zeros except for `n == 0` itself.
pub open spec fn spec_decimal(n: nat) -> Seq<char>
    decreases n,
{
    if n < 10 {
        seq![spec_digit(n)]
    } else {
        spec_decimal(n / 10).push(spec_digit(n % 10))
    }
}

/// The single-character numeral of one digit.
fn digit_str(d: u64) -> (r: &'static str)
    requires
        d < 10,
    ensures
        r@ == seq![spec_digit(d as nat)],
{
    proof {
        reveal_strlit("0");
        reveal_strlit("1");
        reveal_strlit("2");
        reveal_strlit("3");
        reveal_strlit("4");
        reveal_strlit("5");
        reveal_strlit("6");
        reveal_strlit("7");
        reveal_strlit("8");
        reveal_strlit("9");
    }
    let r = if d == 0 {
        "0"
    } else if d == 1 {
        "1"
    } else if d == 2 {
        "2"
    } else if d == 3 {
        "3"
    } else if d == 4 {
        "4"
    } else if d == 5 {
        "5"
    } else if d == 6 {
        "6"
    } else if d == 7 {
        "7"
    } else if d == 8 {
        "8"
    } else {
        "9"
    };
    proof {
        assert(r@ =~= seq![spec_digit(d as nat)]);
    }
    r
}

/// The decimal numeral of `n` as a string.
pub fn decimal_string(n: u64) -> (s: String)
    ensures
        s@ == spec_decimal(n as nat),
    decreases n,
{
    if n < 10 {
        String::from_str(digit_str(n))
    } else {
        let mut s = decimal_string(n / 10);
        s.append(digit_str(n % 10));
        proof {
            assert(s@ =~= spec_decimal((n / 10) as nat).push(spec_digit((n % 10) as nat)));
        }
        s
    }
}

/// The message text: `Anki - due: <due>, new: <new>` verbose, or
/// `<due> / <new>` compact.
pub open spec fn spec_message(due: nat, new_cards: nat, short: bool) -> Seq<char> {
    if short {
        spec_decimal(due) + " / "@ + spec_decimal(new_cards)
    } else {
        "Anki - due: "@ + spec_decimal(due) + ", new: "@ + spec_decimal(new_cards)
    }
}

/// The full output line: the message itself, or the machine-readable
/// record that carries the message and the two integers.
pub open spec fn spec_output(due: nat, new_cards: nat, f: Format) -> Seq<char> {
    let msg = spec_message(due, new_cards, f.short);
    if f.json {
        "{\"msg\": \""@ + msg + "\", \"due\": "@ + spec_decimal(due) + ", \"new\": "@
            + spec_decimal(new_cards) + "}"@
    } else {
        msg
    }
}

/// Renders the output line for the given due and new counts, exactly as
/// [`spec_output`] lays it out.
pub fn render_output(due: u64, new_cards: u32, format: Format) -> (s: String)
    ensures
        s@ == spec_output(due as nat, new_cards as nat, format),
{
    let msg = if format.short {
        let mut m = decimal_string(due);
        m.append(" / ");
        m.append(decimal_string(new_cards as u64).as_str());
        proof {
            assert(m@ =~= spec_message(due as nat, new_cards as nat, format.short));
        }
        m
    } else {
        let mut m = String::from_str("Anki - due: ");
        m.append(decimal_string(due).as_str());
        m.append(", new: ");
        m.append(decimal_string(new_cards as u64).as_str());
        proof {
            assert(m@ =~= spec_message(due as nat, new_cards as nat, format.short));
        }
        m
    };
    if format.json {
        let mut o = String::from_str("{\"msg\": \"");
        o.append(msg.as_str());
        o.append("\", \"due\": ");
        o.append(decimal_string(due).as_str());
        o.append(", \"new\": ");
        o.append(decimal_string(new_cards as u64).as_str());
        o.append("}");
        proof {
            assert(o@ =~= spec_output(due as nat, new_cards as nat, format));
        }
        o
    } else {
        msg
    }
}

/// The line reported for a snapshot: the due total is always
/// `learn + review`, the second integer always `new`.
pub open spec fn spec_report(c: CardCounts, f: Format) -> Seq<char> {
    spec_output((c.learn + c.review) as nat, c.new as nat, f)
}

/// Renders the report for one snapshot.
pub fn report_line(counts: &CardCounts, format: Format) -> (s: String)
    ensures
        s@ == spec_report(*counts, format),
{
    render_output(counts.total_due(), counts.new, format)
}

/// Two one-shot cycles against an unchanged store report the very same
/// line: the report is a function of the snapshot and the format alone.
pub proof fn lemma_report_idempotent(c1: CardCounts, c2: CardCounts, f: Format)
    requires
        c1 == c2,
    ensures
        spec_report(c1, f) == spec_report(c2, f),
{
}

} // verus!
