//! The game log: an append-only sequence of user-visible text lines, plus
//! verified construction of the exact lines the systems emit.

use vstd::prelude::*;
use vstd::string::StringExecFns;

verus! {

pub struct GameLog {
    pub entries: Vec<String>,
}

impl GameLog {
    /// The log as a sequence of character sequences.
    pub open spec fn view_lines(self) -> Seq<Seq<char>> {
        self.entries@.map_values(|s: String| s@)
    }

    pub fn new() -> (log: GameLog)
        ensures
            log.view_lines() == Seq::<Seq<char>>::empty(),
    {
        let log = GameLog { entries: Vec::new() };
        proof {
            assert(log.view_lines() =~= Seq::<Seq<char>>::empty());
        }
        log
    }

    pub fn push(&mut self, line: String)
        ensures
            final(self).view_lines() == old(self).view_lines().push(line@),
    {
        self.entries.push(line);
        proof {
            assert(self.view_lines() =~= old(self).view_lines().push(line@));
        }
    }
}

/// The decimal digit character for `d`.
pub open spec fn digit_char(d: int) -> char
    recommends
        0 <= d < 10,
{
    if d == 0 {
        '0'
    } else if d == 1 {
        '1'
    } else if d == 2 {
        '2'
    } else if d == 3 {
        '3'
    } else if d == 4 {
        '4'
    } else if d == 5 {
        '5'
    } else if d == 6 {
        '6'
    } else if d == 7 {
        '7'
    } else if d == 8 {
        '8'
    } else {
        '9'
    }
}

/// The decimal representation of `n`, most significant digit first.
pub open spec fn dec_str(n: nat) -> Seq<char>
    decreases n,
{
    if n < 10 {
        seq![digit_char(n as int)]
    } else {
        dec_str(n / 10) + seq![digit_char((n % 10) as int)]
    }
}

/// One decimal digit as a string slice.
fn digit_str(d: u32) -> (s: &'static str)
    requires
        d < 10,
    ensures
        s@ == seq![digit_char(d as int)],
{
    proof {
        reveal_strlit("0");
        reveal_strlit("1");
        reveal_strlit("2");
        reveal_strlit("3");
        reveal_strlit("4");
        reveal_strlit("5");
        reveal_strlit("6");
        reveal_strlit("7");
        reveal_strlit("8");
        reveal_strlit("9");
    }
    let s = if d == 0 {
        "0"
    } else if d == 1 {
        "1"
    } else if d == 2 {
        "2"
    } else if d == 3 {
        "3"
    } else if d == 4 {
        "4"
    } else if d == 5 {
        "5"
    } else if d == 6 {
        "6"
    } else if d == 7 {
        "7"
    } else {
        "8"
    };
    let s = if d == 9 {
        "9"
    } else {
        s
    };
    proof {
        assert(s@ =~= seq![digit_char(d as int)]);
    }
    s
}

/// Renders `n` in decimal.
pub fn u32_string(n: u32) -> (s: String)
    ensures
        s@ == dec_str(n as nat),
    decreases n,
{
    if n < 10 {
        String::from_str(digit_str(n))
    } else {
        let mut s = u32_string(n / 10);
        s.append(digit_str(n % 10));
        proof {
            assert(s@ =~= dec_str(n as nat));
        }
        s
    }
}

pub open spec fn spec_pickup_line(name: Seq<char>) -> Seq<char> {
    "You pick up the "@ + name
}

pub open spec fn spec_drop_line(name: Seq<char>) -> Seq<char> {
    "You drop the "@ + name
}

pub open spec fn spec_nothing_here_line() -> Seq<char> {
    "There is nothing here to pick up."@
}

/// The internal-consistency line for a malformed intent that was skipped.
pub open spec fn spec_invalid_intent_line() -> Seq<char> {
    "An invalid intent was ignored."@
}

pub open spec fn spec_heal_line(item_name: Seq<char>, amount: int) -> Seq<char> {
    "You use the "@ + item_name + ", healing "@ + dec_str(amount as nat) + " hp"@
}

pub open spec fn spec_damage_line(item_name: Seq<char>, target_name: Seq<char>, amount: int)
    -> Seq<char> {
    "You use "@ + item_name + " on "@ + target_name + ", inflicting "@ + dec_str(amount as nat)
        + " hp."@
}

pub fn pickup_line(name: &str) -> (s: String)
    ensures
        s@ == spec_pickup_line(name@),
{
    let mut s = String::from_str("You pick up the ");
    s.append(name);
    s
}

pub fn drop_line(name: &str) -> (s: String)
    ensures
        s@ == spec_drop_line(name@),
{
    let mut s = String::from_str("You drop the ");
    s.append(name);
    s
}

pub fn nothing_here_line() -> (s: String)
    ensures
        s@ == spec_nothing_here_line(),
{
    String::from_str("There is nothing here to pick up.")
}

pub fn invalid_intent_line() -> (s: String)
    ensures
        s@ == spec_invalid_intent_line(),
{
    String::from_str("An invalid intent was ignored.")
}

pub fn heal_line(item_name: &str, amount: i32) -> (s: String)
    requires
        amount >= 0,
    ensures
        s@ == spec_heal_line(item_name@, amount as int),
{
    let mut s = String::from_str("You use the ");
    s.append(item_name);
    s.append(", healing ");
    let num = u32_string(amount as u32);
    s.append(num.as_str());
    s.append(" hp");
    proof {
        assert(s@ =~= spec_heal_line(item_name@, amount as int));
    }
    s
}

pub fn damage_line(item_name: &str, target_name: &str, amount: i32) -> (s: String)
    requires
        amount >= 0,
    ensures
        s@ == spec_damage_line(item_name@, target_name@, amount as int),
{
    let mut s = String::from_str("You use ");
    s.append(item_name);
    s.append(" on ");
    s.append(target_name);
    s.append(", inflicting ");
    let num = u32_string(amount as u32);
    s.append(num.as_str());
    s.append(" hp.");
    proof {
        assert(s@ =~= spec_damage_line(item_name@, target_name@, amount as int));
    }
    s
}

} // verus!
