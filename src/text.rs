use vstd::prelude::*;

verus! {

/// Relies on std's `String::push`: it appends the one character.
pub assume_specification[ String::push ](string: &mut String, ch: char)
    ensures
        final(string)@ == old(string)@.push(ch),
;

/// The character of a decimal digit.
pub open spec fn digit_char(d: nat) -> char {
    if d == 0 {
        '0'
    } else if d == 1 {
        '1'
    } else if d == 2 {
        '2'
    } else if d == 3 {
        '3'
    } else if d == 4 {
        '4'
    } else if d == 5 {
        '5'
    } else if d == 6 {
        '6'
    } else if d == 7 {
        '7'
    } else if d == 8 {
        '8'
    } else {
        '9'
    }
}

/// Decimal digits of `n`, most significant first, without leading zeros.
pub open spec fn digits(n: nat) -> Seq<char>
    decreases n,
{
    if n < 10 {
        seq![digit_char(n)]
    } else {
        digits(n / 10).push(digit_char(n % 10))
    }
}

/// Decimal text of an integer, with a leading `-` when it is negative.
pub open spec fn decimal(n: int) -> Seq<char> {
    if n < 0 {
        seq!['-'] + digits((-n) as nat)
    } else {
        digits(n as nat)
    }
}

/// `s` with every double quote taken out.
pub open spec fn without_quotes(s: Seq<char>) -> Seq<char>
    decreases s.len(),
{
    if s.len() == 0 {
        s
    } else if s.last() == '"' {
        without_quotes(s.drop_last())
    } else {
        without_quotes(s.drop_last()).push(s.last())
    }
}

/// The parts of `s` before and after its first occurrence of `sep`, if it has one.
pub open spec fn split_first(s: Seq<char>, sep: char) -> Option<(Seq<char>, Seq<char>)> {
    if exists|i: int| 0 <= i < s.len() && s[i] == sep {
        let i = choose|i: int|
            0 <= i < s.len() && s[i] == sep && forall|j: int| 0 <= j < i ==> s[j] != sep;
        Some((s.take(i), s.skip(i + 1)))
    } else {
        None
    }
}

/// The characters of `s`, in order.
pub fn chars_of(s: &str) -> (r: Vec<char>)
    ensures
        r@ == s@,
{
    let mut r: Vec<char> = Vec::new();
    for c in it: s.chars()
        invariant
            it.seq() == s@,
            r@ == it.seq().take(it.index() as int),
    {
        r.push(c);
    }
    r
}

/// The characters of `chars` from `from` up to, not including, `to`.
pub fn text_of(chars: &Vec<char>, from: usize, to: usize) -> (r: String)
    requires
        from <= to <= chars.len(),
    ensures
        r@ == chars@.subrange(from as int, to as int),
{
    let mut r = String::new();
    let mut i: usize = from;
    while i < to
        invariant
            from <= i <= to <= chars.len(),
            r@ == chars@.subrange(from as int, i as int),
        decreases to - i,
    {
        r.push(chars[i]);
        i = i + 1;
        assert(r@ =~= chars@.subrange(from as int, i as int));
    }
    r
}

fn digit(d: u64) -> (c: char)
    requires
        d < 10,
    ensures
        c == digit_char(d as nat),
{
    match d {
        0 => '0',
        1 => '1',
        2 => '2',
        3 => '3',
        4 => '4',
        5 => '5',
        6 => '6',
        7 => '7',
        8 => '8',
        _ => '9',
    }
}

/// Appends the decimal digits of `n` to `out`.
pub fn push_digits(out: &mut String, n: u64)
    ensures
        final(out)@ == old(out)@ + digits(n as nat),
    decreases n,
{
    if n >= 10 {
        push_digits(out, n / 10);
    }
    out.push(digit(n % 10));
    assert(final(out)@ =~= old(out)@ + digits(n as nat));
}

/// Appends the decimal text of `n` to `out`.
pub fn push_decimal(out: &mut String, n: i64)
    ensures
        final(out)@ == old(out)@ + decimal(n as int),
{
    if n < 0 {
        out.push('-');
        let magnitude: u64 = (0i128 - n as i128) as u64;
        push_digits(out, magnitude);
        assert(final(out)@ =~= old(out)@ + decimal(n as int));
    } else {
        push_digits(out, n as u64);
    }
}

/// `s` with every double quote taken out.
pub fn strip_quotes(s: &str) -> (r: String)
    ensures
        r@ == without_quotes(s@),
{
    let mut r = String::new();
    for c in it: s.chars()
        invariant
            it.seq() == s@,
            r@ == without_quotes(it.seq().take(it.index() as int)),
    {
        if c != '"' {
            r.push(c);
        }
        proof {
            let p = it.seq().take(it.index() as int);
            let q = it.seq().take(it.index() + 1);
            assert(q.drop_last() =~= p);
            assert(q.len() > 0 && q.last() == c);
            assert(without_quotes(q) == if c != '"' {
                without_quotes(p).push(c)
            } else {
                without_quotes(p)
            });
        }
    }
    proof {
        assert(s@.take(s@.len() as int) =~= s@);
    }
    r
}

/// The parts of `s` before and after its first comma, if it has one.
pub fn split_at_comma(s: &str) -> (r: Option<(String, String)>)
    ensures
        r.is_some() == split_first(s@, ',').is_some(),
        r.is_some() ==> r.unwrap().0@ == split_first(s@, ',').unwrap().0
            && r.unwrap().1@ == split_first(s@, ',').unwrap().1,
{
    let mut before = String::new();
    let mut after = String::new();
    let mut found: bool = false;
    let ghost mut at: int = 0;
    for c in it: s.chars()
        invariant
            it.seq() == s@,
            !found ==> before@ == s@.take(it.index() as int),
            !found ==> after@.len() == 0,
            !found ==> forall|j: int| 0 <= j < it.index() ==> s@[j] != ',',
            found ==> 0 <= at < it.index() && s@[at] == ',',
            found ==> forall|j: int| 0 <= j < at ==> s@[j] != ',',
            found ==> before@ == s@.take(at),
            found ==> after@ == s@.subrange(at + 1, it.index() as int),
    {
        if found {
            after.push(c);
            proof {
                assert(after@ =~= s@.subrange(at + 1, it.index() + 1));
            }
        } else if c == ',' {
            found = true;
            proof {
                at = it.index() as int;
                assert(after@ =~= s@.subrange(at + 1, it.index() + 1));
            }
        } else {
            before.push(c);
            proof {
                assert(before@ =~= s@.take(it.index() + 1));
            }
        }
    }
    if found {
        proof {
            let i = choose|i: int|
                0 <= i < s@.len() && s@[i] == ',' && forall|j: int| 0 <= j < i ==> s@[j] != ',';
            assert(0 <= at < s@.len() && s@[at] == ',' && forall|j: int|
                0 <= j < at ==> s@[j] != ',');
            if i < at {
                assert(s@[i] != ',');
            }
            if at < i {
                assert(s@[at] != ',');
            }
            assert(i == at);
            assert(after@ =~= s@.skip(at + 1));
        }
        Some((before, after))
    } else {
        None
    }
}

} // verus!
