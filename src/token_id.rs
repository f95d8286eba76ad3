use vstd::prelude::*;
use vstd::string::StringExecFns;

verus! {

/// The decimal digit character for `d < 10`.
pub open spec fn digit_char(d: nat) -> char {
    if d == 0 {
        '0'
    } else if d == 1 {
        '1'
    } else if d == 2 {
        '2'
    } else if d == 3 {
        '3'
    } else if d == 4 {
        '4'
    } else if d == 5 {
        '5'
    } else if d == 6 {
        '6'
    } else if d == 7 {
        '7'
    } else if d == 8 {
        '8'
    } else {
        '9'
    }
}

/// The value of a decimal digit character.
pub open spec fn char_value(c: char) -> nat {
    if c == '1' {
        1
    } else if c == '2' {
        2
    } else if c == '3' {
        3
    } else if c == '4' {
        4
    } else if c == '5' {
        5
    } else if c == '6' {
        6
    } else if c == '7' {
        7
    } else if c == '8' {
        8
    } else if c == '9' {
        9
    } else {
        0
    }
}

/// `n` written in decimal, without leading zeros.
pub open spec fn decimal_digits(n: nat) -> Seq<char>
    decreases n,
{
    if n < 10 {
        seq![digit_char(n)]
    } else {
        decimal_digits(n / 10).push(digit_char(n % 10))
    }
}

/// The number that a string of decimal digits stands for.
pub open spec fn digits_value(s: Seq<char>) -> nat
    decreases s.len(),
{
    if s.len() == 0 {
        0
    } else {
        digits_value(s.drop_last()) * 10 + char_value(s.last())
    }
}

/// The id of the ticket with sequence number `n` of type `ticket_type` of
/// show `show_id`: `{show_id}.{ticket_type}.{n}`.
pub open spec fn token_id_spec(show_id: Seq<char>, ticket_type: Seq<char>, n: nat) -> Seq<char> {
    show_id + seq!['.'] + ticket_type + seq!['.'] + decimal_digits(n)
}

proof fn lemma_char_value(d: nat)
    requires
        d < 10,
    ensures
        char_value(digit_char(d)) == d,
{
}

pub proof fn lemma_digits_value(n: nat)
    ensures
        digits_value(decimal_digits(n)) == n,
    decreases n,
{
    if n >= 10 {
        lemma_digits_value(n / 10);
        lemma_char_value(n % 10);
        let s = decimal_digits(n);
        assert(s.drop_last() =~= decimal_digits(n / 10));
        assert(s.last() == digit_char(n % 10));
        assert(digits_value(s) == digits_value(s.drop_last()) * 10 + char_value(s.last()));
    } else {
        let s = seq![digit_char(n)];
        assert(s.drop_last() =~= Seq::<char>::empty());
        lemma_char_value(n);
        assert(digits_value(s) == digits_value(s.drop_last()) * 10 + char_value(s.last()));
        assert(digits_value(Seq::<char>::empty()) == 0);
    }
}

/// Ticket ids of one show and type with different sequence numbers differ.
pub proof fn token_ids_distinct(show_id: Seq<char>, ticket_type: Seq<char>, a: nat, b: nat)
    requires
        a != b,
    ensures
        token_id_spec(show_id, ticket_type, a) != token_id_spec(show_id, ticket_type, b),
{
    let prefix = show_id + seq!['.'] + ticket_type + seq!['.'];
    let x = token_id_spec(show_id, ticket_type, a);
    let y = token_id_spec(show_id, ticket_type, b);
    assert(x.subrange(prefix.len() as int, x.len() as int) =~= decimal_digits(a));
    assert(y.subrange(prefix.len() as int, y.len() as int) =~= decimal_digits(b));
    lemma_digits_value(a);
    lemma_digits_value(b);
}

fn digit_str(d: u32) -> (r: &'static str)
    requires
        d < 10,
    ensures
        r@ == seq![digit_char(d as nat)],
{
    if d == 0 {
        proof { reveal_strlit("0"); }
        "0"
    } else if d == 1 {
        proof { reveal_strlit("1"); }
        "1"
    } else if d == 2 {
        proof { reveal_strlit("2"); }
        "2"
    } else if d == 3 {
        proof { reveal_strlit("3"); }
        "3"
    } else if d == 4 {
        proof { reveal_strlit("4"); }
        "4"
    } else if d == 5 {
        proof { reveal_strlit("5"); }
        "5"
    } else if d == 6 {
        proof { reveal_strlit("6"); }
        "6"
    } else if d == 7 {
        proof { reveal_strlit("7"); }
        "7"
    } else if d == 8 {
        proof { reveal_strlit("8"); }
        "8"
    } else {
        proof { reveal_strlit("9"); }
        "9"
    }
}

/// `n` in decimal.
pub fn decimal_string(n: u32) -> (r: String)
    ensures
        r@ == decimal_digits(n as nat),
    decreases n,
{
    if n < 10 {
        String::from_str(digit_str(n))
    } else {
        let mut s = decimal_string(n / 10);
        s.append(digit_str(n % 10));
        s
    }
}

/// Builds the id `{show_id}.{ticket_type}.{n}` of a ticket.
pub fn token_id(show_id: &String, ticket_type: &String, n: u32) -> (r: String)
    ensures
        r@ == token_id_spec(show_id@, ticket_type@, n as nat),
{
    proof { reveal_strlit("."); }
    let mut s = show_id.clone();
    s.append(".");
    s.append(ticket_type.as_str());
    s.append(".");
    let digits = decimal_string(n);
    s.append(digits.as_str());
    s
}

} // verus!
