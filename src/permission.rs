use vstd::prelude::*;
use vstd::string::*;

verus! {

/// A character that is a base-8 digit.
pub open spec fn is_octal_digit(c: char) -> bool {
    '0' <= c && c <= '7'
}

/// Every character of `s` is a base-8 digit.
pub open spec fn all_octal(s: Seq<char>) -> bool {
    forall|i: int| 0 <= i < s.len() ==> is_octal_digit(#[trigger] s[i])
}

/// The value of a base-8 digit character.
pub open spec fn digit_value(c: char) -> int {
    (c as int) - ('0' as int)
}

/// The read/write/execute triplet of one permission digit.
pub open spec fn triplet(d: int) -> Seq<char> {
    seq![
        if d / 4 % 2 == 1 { 'r' } else { '-' },
        if d / 2 % 2 == 1 { 'w' } else { '-' },
        if d % 2 == 1 { 'x' } else { '-' },
    ]
}

/// The symbolic expansion of a sequence of base-8 digits, three characters per digit.
pub open spec fn expand(s: Seq<char>) -> Seq<char>
    decreases s.len(),
{
    if s.len() == 0 {
        Seq::empty()
    } else {
        expand(s.drop_last()) + triplet(digit_value(s.last()))
    }
}

/// What decoding a permission string gives: the expansion when every character is a
/// base-8 digit, the input itself otherwise.
pub open spec fn decoded(s: Seq<char>) -> Seq<char> {
    if all_octal(s) {
        expand(s)
    } else {
        s
    }
}

fn flag(set: bool, c: &'static str) -> (r: &'static str)
    ensures
        r@ == (if set { c@ } else { seq!['-'] }),
{
    proof {
        reveal_strlit("-");
    }
    if set {
        c
    } else {
        "-"
    }
}

/// Expands each base-8 digit of `number` into its `rwx` triplet; a string holding any
/// other character comes back unchanged.
pub fn get_permission_string_from_string_number(number: String) -> (r: String)
    ensures
        r@ == decoded(number@),
{
    let n: usize = number.as_str().unicode_len();
    let mut out = String::new();
    let mut i: usize = 0;
    while i < n
        invariant
            n == number@.len(),
            i <= n,
            all_octal(number@.subrange(0, i as int)),
            out@ == expand(number@.subrange(0, i as int)),
        decreases n - i,
    {
        let c = number.as_str().get_char(i);
        if !('0' <= c && c <= '7') {
            assert(!all_octal(number@)) by {
                assert(!is_octal_digit(number@[i as int]));
            }
            return number;
        }
        let d: u32 = (c as u32) - ('0' as u32);
        assert(d as int == digit_value(c));
        let ghost before = out@;
        proof {
            reveal_strlit("r");
            reveal_strlit("w");
            reveal_strlit("x");
        }
        out.append(flag(d / 4 % 2 == 1, "r"));
        out.append(flag(d / 2 % 2 == 1, "w"));
        out.append(flag(d % 2 == 1, "x"));
        proof {
            let pre = number@.subrange(0, i as int);
            let next = number@.subrange(0, i + 1);
            assert(next.drop_last() =~= pre);
            assert(next.last() == c);
            assert(out@ =~= before + triplet(d as int));
            assert(all_octal(next)) by {
                assert forall|k: int| 0 <= k < next.len() implies is_octal_digit(
                    #[trigger] next[k],
                ) by {
                    if k < i {
                        assert(next[k] == pre[k]);
                    }
                }
            }
        }
        i = i + 1;
    }
    assert(number@.subrange(0, n as int) =~= number@);
    out
}

} // verus!

verus! {

/// The character of an octal digit `d` in `0..8`.
pub open spec fn octal_char(d: int) -> char {
    if d == 0 {
        '0'
    } else if d == 1 {
        '1'
    } else if d == 2 {
        '2'
    } else if d == 3 {
        '3'
    } else if d == 4 {
        '4'
    } else if d == 5 {
        '5'
    } else if d == 6 {
        '6'
    } else {
        '7'
    }
}

/// The owner/group/other bits of a file mode as three base-8 digits, leading zeros kept.
pub open spec fn permission_of(mode: u32) -> Seq<char> {
    seq![
        octal_char((mode / 64 % 8) as int),
        octal_char((mode / 8 % 8) as int),
        octal_char((mode % 8) as int),
    ]
}

fn octal_digit(d: u32) -> (r: &'static str)
    requires
        d < 8,
    ensures
        r@ == seq![octal_char(d as int)],
{
    proof {
        reveal_strlit("0");
        reveal_strlit("1");
        reveal_strlit("2");
        reveal_strlit("3");
        reveal_strlit("4");
        reveal_strlit("5");
        reveal_strlit("6");
        reveal_strlit("7");
    }
    if d == 0 {
        "0"
    } else if d == 1 {
        "1"
    } else if d == 2 {
        "2"
    } else if d == 3 {
        "3"
    } else if d == 4 {
        "4"
    } else if d == 5 {
        "5"
    } else if d == 6 {
        "6"
    } else {
        "7"
    }
}

/// Formats the low nine bits of `mode` as three base-8 digits (`0o644` gives `"644"`,
/// `0o6` gives `"006"`).
pub fn permission_from_mode(mode: u32) -> (r: String)
    ensures
        r@ == permission_of(mode),
{
    let mut r = String::new();
    r.append(octal_digit(mode / 64 % 8));
    r.append(octal_digit(mode / 8 % 8));
    r.append(octal_digit(mode % 8));
    assert(r@ =~= permission_of(mode));
    r
}

/// A permission string made from a mode holds three base-8 digits, and decoding it gives
/// nine characters, `r` or `-` at positions 0, 3 and 6, `w` or `-` at 1, 4 and 7, and
/// `x` or `-` at 2, 5 and 8.
pub proof fn lemma_mode_permission_decodes(mode: u32)
    ensures
        permission_of(mode).len() == 3,
        all_octal(permission_of(mode)),
        decoded(permission_of(mode)).len() == 9,
        forall|k: int|
            0 <= k < 3 ==> {
                let t = #[trigger] decoded(permission_of(mode)).subrange(3 * k, 3 * k + 3);
                &&& (t[0] == 'r' || t[0] == '-')
                &&& (t[1] == 'w' || t[1] == '-')
                &&& (t[2] == 'x' || t[2] == '-')
            },
{
    let p = permission_of(mode);
    assert(all_octal(p));
    let e1 = triplet(digit_value(p[0]));
    let e2 = triplet(digit_value(p[1]));
    let e3 = triplet(digit_value(p[2]));
    let q1 = p.drop_last().drop_last();
    let q2 = p.drop_last();
    assert(q1.drop_last() =~= Seq::<char>::empty());
    assert(q1.last() == p[0]);
    assert(q2.last() == p[1]);
    assert(q2.drop_last() == q1);
    assert(expand(q1.drop_last()) =~= Seq::<char>::empty());
    assert(expand(q1) =~= e1);
    assert(expand(q2) =~= e1 + e2);
    assert(expand(p) =~= e1 + e2 + e3);
    let d = decoded(p);
    assert(d.subrange(0, 3) =~= e1);
    assert(d.subrange(3, 6) =~= e2);
    assert(d.subrange(6, 9) =~= e3);
}

} // verus!
