use vstd::prelude::*;

verus! {

/// The character of one decimal digit.
pub open spec fn digit_char(d: int) -> char {
    if d == 0 {
        '0'
    } else if d == 1 {
        '1'
    } else if d == 2 {
        '2'
    } else if d == 3 {
        '3'
    } else if d == 4 {
        '4'
    } else if d == 5 {
        '5'
    } else if d == 6 {
        '6'
    } else if d == 7 {
        '7'
    } else if d == 8 {
        '8'
    } else {
        '9'
    }
}

/// The decimal digits of a number, most significant first.
pub open spec fn spec_decimal(n: int) -> Seq<char>
    decreases n,
{
    if n < 10 {
        seq![digit_char(n)]
    } else {
        spec_decimal(n / 10).push(digit_char(n % 10))
    }
}

/// A number padded with zeros to at least `w` digits.
pub open spec fn spec_padded(n: int, w: int) -> Seq<char>
    decreases w,
{
    if spec_decimal(n).len() >= w {
        spec_decimal(n)
    } else {
        seq!['0'] + spec_padded(n, w - 1)
    }
}

/// A millisecond count rendered as hours, minutes, seconds and
/// milliseconds: two digits for each clock field (more for very long
/// hours), three for the milliseconds, colons and a dot between them.
pub open spec fn spec_timestamp(ms: int) -> Seq<char> {
    spec_padded(ms / 3600000, 2) + seq![':'] + spec_padded(ms / 60000 % 60, 2) + seq![':']
        + spec_padded(ms / 1000 % 60, 2) + seq!['.'] + spec_padded(ms % 1000, 3)
}

fn digit_str(d: u64) -> (r: &'static str)
    requires
        d < 10,
    ensures
        r@ =~= seq![digit_char(d as int)],
{
    proof {
        reveal_strlit("0");
        reveal_strlit("1");
        reveal_strlit("2");
        reveal_strlit("3");
        reveal_strlit("4");
        reveal_strlit("5");
        reveal_strlit("6");
        reveal_strlit("7");
        reveal_strlit("8");
        reveal_strlit("9");
    }
    if d == 0 {
        "0"
    } else if d == 1 {
        "1"
    } else if d == 2 {
        "2"
    } else if d == 3 {
        "3"
    } else if d == 4 {
        "4"
    } else if d == 5 {
        "5"
    } else if d == 6 {
        "6"
    } else if d == 7 {
        "7"
    } else if d == 8 {
        "8"
    } else {
        "9"
    }
}

/// A number in decimal.
fn decimal(n: u64) -> (r: String)
    ensures
        r@ == spec_decimal(n as int),
        r@.len() >= 1,
    decreases n,
{
    if n < 10 {
        digit_str(n).to_owned()
    } else {
        let mut s = decimal(n / 10);
        s.append(digit_str(n % 10));
        proof {
            assert(s@ =~= spec_decimal((n / 10) as int).push(digit_char((n % 10) as int)));
        }
        s
    }
}

proof fn lemma_decimal_len(n: int)
    requires
        n >= 0,
    ensures
        spec_decimal(n).len() >= 1,
        n >= 10 ==> spec_decimal(n).len() >= 2,
        n >= 100 ==> spec_decimal(n).len() >= 3,
        n < 10 ==> spec_decimal(n).len() == 1,
        n < 100 ==> spec_decimal(n).len() <= 2,
    decreases n,
{
    if n >= 10 {
        lemma_decimal_len(n / 10);
    }
}

/// A number in decimal, zero-padded to at least `w` digits.
fn padded(n: u64, w: u64) -> (r: String)
    requires
        w <= 3,
    ensures
        r@ == spec_padded(n as int, w as int),
    decreases w,
{
    let digits = decimal(n);
    let need_pad = if n < 10 {
        w >= 2
    } else if n < 100 {
        w >= 3
    } else {
        false
    };
    proof {
        lemma_decimal_len(n as int);
    }
    if need_pad {
        let zero = "0";
        proof {
            reveal_strlit("0");
        }
        let mut s = zero.to_owned();
        let rest = padded(n, w - 1);
        s.append(rest.as_str());
        proof {
            assert(s@ =~= seq!['0'] + spec_padded(n as int, w - 1));
        }
        s
    } else {
        proof {
            assert(spec_decimal(n as int).len() >= w as int);
        }
        digits
    }
}

/// Render a millisecond count as `hh:mm:ss.mmm`.
pub fn format_timestamp(ms: u64) -> (r: String)
    ensures
        r@ == spec_timestamp(ms as int),
{
    let hours = ms / 3600000;
    let minutes = ms / 60000 % 60;
    let secs = ms / 1000 % 60;
    let millis = ms % 1000;
    let mut s = padded(hours, 2);
    let colon = ":";
    let dot = ".";
    proof {
        reveal_strlit(":");
        reveal_strlit(".");
    }
    s.append(colon);
    let m = padded(minutes, 2);
    s.append(m.as_str());
    s.append(colon);
    let sec = padded(secs, 2);
    s.append(sec.as_str());
    s.append(dot);
    let mil = padded(millis, 3);
    s.append(mil.as_str());
    proof {
        assert(s@ =~= spec_timestamp(ms as int));
    }
    s
}

} // verus!
