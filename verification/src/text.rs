//! Small text helpers: decimal rendering of integers and joining of Unix file-system paths.

use vstd::prelude::*;

verus! {

/// The ASCII digit for a value below ten.
pub open spec fn digit_char(d: nat) -> char {
    if d == 0 {
        '0'
    } else if d == 1 {
        '1'
    } else if d == 2 {
        '2'
    } else if d == 3 {
        '3'
    } else if d == 4 {
        '4'
    } else if d == 5 {
        '5'
    } else if d == 6 {
        '6'
    } else if d == 7 {
        '7'
    } else if d == 8 {
        '8'
    } else {
        '9'
    }
}

/// The decimal representation of `n`, most significant digit first, without leading zeros.
pub open spec fn decimal(n: nat) -> Seq<char>
    decreases n,
{
    if n < 10 {
        seq![digit_char(n)]
    } else {
        decimal(n / 10).push(digit_char(n % 10))
    }
}

/// The number a string of decimal digits stands for.
pub open spec fn digits_value(s: Seq<char>) -> int
    decreases s.len(),
{
    if s.len() == 0 {
        0
    } else {
        digits_value(s.drop_last()) * 10 + (s.last() as int - '0' as int)
    }
}

/// The decimal rendering is the usual one: only the digits `0`-`9`, no leading
/// zero except for zero itself, and read back as a number it is `n`.
pub proof fn lemma_decimal_reads_back(n: nat)
    ensures
        digits_value(decimal(n)) == n,
        decimal(n).len() > 0,
        forall|i: int| 0 <= i < decimal(n).len() ==> '0' <= #[trigger] decimal(n)[i] <= '9',
        n > 0 ==> decimal(n)[0] != '0',
    decreases n,
{
    let s = decimal(n);
    assert(digit_char(n % 10) as int - '0' as int == n % 10);
    assert(digits_value(s) == digits_value(s.drop_last()) * 10 + (s.last() as int - '0' as int));
    if n < 10 {
        assert(s.drop_last() =~= Seq::<char>::empty());
        assert(digits_value(s.drop_last()) == 0);
        assert(s.last() == digit_char(n));
    } else {
        lemma_decimal_reads_back(n / 10);
        assert(s.drop_last() =~= decimal(n / 10));
        assert(s.last() == digit_char(n % 10));
        assert(n == (n / 10) * 10 + n % 10);
        assert forall|i: int| 0 <= i < s.len() implies '0' <= #[trigger] s[i] <= '9' by {
            if i < s.len() - 1 {
                assert(s[i] == decimal(n / 10)[i]);
            }
        }
        assert(s[0] == decimal(n / 10)[0]);
    }
}

fn digit_str(d: u64) -> (s: &'static str)
    requires
        d < 10,
    ensures
        s@ == seq![digit_char(d as nat)],
{
    if d == 0 {
        proof { reveal_strlit("0"); }
        assert("0"@ =~= seq!['0']);
        "0"
    } else if d == 1 {
        proof { reveal_strlit("1"); }
        assert("1"@ =~= seq!['1']);
        "1"
    } else if d == 2 {
        proof { reveal_strlit("2"); }
        assert("2"@ =~= seq!['2']);
        "2"
    } else if d == 3 {
        proof { reveal_strlit("3"); }
        assert("3"@ =~= seq!['3']);
        "3"
    } else if d == 4 {
        proof { reveal_strlit("4"); }
        assert("4"@ =~= seq!['4']);
        "4"
    } else if d == 5 {
        proof { reveal_strlit("5"); }
        assert("5"@ =~= seq!['5']);
        "5"
    } else if d == 6 {
        proof { reveal_strlit("6"); }
        assert("6"@ =~= seq!['6']);
        "6"
    } else if d == 7 {
        proof { reveal_strlit("7"); }
        assert("7"@ =~= seq!['7']);
        "7"
    } else if d == 8 {
        proof { reveal_strlit("8"); }
        assert("8"@ =~= seq!['8']);
        "8"
    } else {
        proof { reveal_strlit("9"); }
        assert("9"@ =~= seq!['9']);
        "9"
    }
}

/// Appends the decimal representation of `n` to `out`.
pub fn push_decimal(out: &mut String, n: u64)
    ensures
        final(out)@ == old(out)@ + decimal(n as nat),
    decreases n,
{
    if n >= 10 {
        push_decimal(out, n / 10);
    }
    let d = digit_str(n % 10);
    out.append(d);
    proof {
        if n >= 10 {
            assert(decimal(n as nat) == decimal((n / 10) as nat).push(digit_char((n % 10) as nat)));
        }
    }
}

/// Whether `p` is an absolute path (it starts at the root directory).
pub open spec fn is_absolute(p: Seq<char>) -> bool {
    p.len() > 0 && p[0] == '/'
}

/// `name` adjoined to `base` as on Unix-like systems, where `/` is the only
/// separator and the root: an absolute `name` replaces `base`; otherwise a `/` is
/// put between the two unless `base` is empty or already ends in one. (Windows
/// separators, drive letters and prefixes are not recognised.)
pub open spec fn joined(base: Seq<char>, name: Seq<char>) -> Seq<char> {
    if is_absolute(name) {
        name
    } else if base.len() == 0 || base.last() == '/' {
        base + name
    } else {
        base + seq!['/'] + name
    }
}

/// How `joined` puts a path together, case by case: a name starting at the root
/// replaces the base; an empty base gives the name; a base that already ends in `/`
/// is followed directly by the name; any other base (whatever its first character)
/// is followed by one `/` and then the name. In the relative cases the base is kept
/// whole as the prefix of the result.
pub proof fn lemma_joined_cases(base: Seq<char>, name: Seq<char>)
    ensures
        name.len() > 0 && name[0] == '/' ==> joined(base, name) == name,
        !(name.len() > 0 && name[0] == '/') && base.len() == 0 ==> joined(base, name) == name,
        !(name.len() > 0 && name[0] == '/') && base.len() > 0 && base[base.len() - 1] == '/'
            ==> joined(base, name) == base + name,
        !(name.len() > 0 && name[0] == '/') && base.len() > 0 && base[base.len() - 1] != '/'
            ==> {
            let p = joined(base, name);
            &&& p.len() == base.len() + 1 + name.len()
            &&& p.subrange(0, base.len() as int) == base
            &&& p[base.len() as int] == '/'
            &&& p.subrange(base.len() + 1int, p.len() as int) == name
        },
{
    if !(name.len() > 0 && name[0] == '/') && base.len() == 0 {
        assert(base + name =~= name);
    }
    if !(name.len() > 0 && name[0] == '/') && base.len() > 0 && base[base.len() - 1] != '/' {
        let p = joined(base, name);
        assert(p == base + seq!['/'] + name);
        assert(p.subrange(0, base.len() as int) =~= base);
        assert(p.subrange(base.len() + 1int, p.len() as int) =~= name);
    }
}

/// Joins `name` onto the directory path `base`, with Unix path rules.
pub fn join_path(base: &str, name: &str) -> (p: String)
    ensures
        p@ == joined(base@, name@),
{
    let name_len = name.unicode_len();
    if name_len > 0 && name.get_char(0) == '/' {
        return String::from_str(name);
    }
    let base_len = base.unicode_len();
    let mut p = String::from_str(base);
    if base_len > 0 && base.get_char(base_len - 1) != '/' {
        proof { reveal_strlit("/"); }
        assert("/"@ =~= seq!['/']);
        p.append("/");
    }
    p.append(name);
    p
}

} // verus!
