use vstd::prelude::*;

verus! {

/// The number of bytes that UTF-8 takes for `c`.
pub open spec fn byte_width(c: char) -> nat {
    if (c as u32) < 0x80 {
        1
    } else if (c as u32) < 0x800 {
        2
    } else if (c as u32) < 0x10000 {
        3
    } else {
        4
    }
}

/// The number of bytes that UTF-8 takes for `s`.
pub open spec fn byte_len(s: Seq<char>) -> nat
    decreases s.len(),
{
    if s.len() == 0 {
        0
    } else {
        byte_len(s.drop_last()) + byte_width(s.last())
    }
}

pub open spec fn spaces(n: nat) -> Seq<char> {
    Seq::new(n, |i: int| ' ')
}

pub open spec fn digit_text(d: nat) -> Seq<char> {
    if d == 0 {
        "0"@
    } else if d == 1 {
        "1"@
    } else if d == 2 {
        "2"@
    } else if d == 3 {
        "3"@
    } else if d == 4 {
        "4"@
    } else if d == 5 {
        "5"@
    } else if d == 6 {
        "6"@
    } else if d == 7 {
        "7"@
    } else if d == 8 {
        "8"@
    } else {
        "9"@
    }
}

/// `n` in decimal notation, without leading zeros.
pub open spec fn decimal(n: nat) -> Seq<char>
    decreases n,
{
    if n < 10 {
        digit_text(n)
    } else {
        decimal(n / 10) + digit_text(n % 10)
    }
}

pub open spec fn has_newline(s: Seq<char>) -> bool {
    exists|i: int| 0 <= i < s.len() && s[i] == '\n'
}

/// The position of the last line feed before `q`, or -1.
pub open spec fn last_newline_before(s: Seq<char>, q: int) -> int
    decreases q,
{
    if q <= 0 {
        -1
    } else if s[q - 1] == '\n' {
        q - 1
    } else {
        last_newline_before(s, q - 1)
    }
}

/// The position of the first line feed from `i` on, or the end of `s`.
pub open spec fn line_end(s: Seq<char>, i: int) -> int
    decreases s.len() - i,
{
    if i < 0 || i >= s.len() || s[i] == '\n' {
        i
    } else {
        line_end(s, i + 1)
    }
}

pub open spec fn count_newlines(s: Seq<char>) -> nat
    decreases s.len(),
{
    if s.len() == 0 {
        0
    } else {
        count_newlines(s.drop_last()) + if s.last() == '\n' {
            1nat
        } else {
            0nat
        }
    }
}

/// The diagnostic for a failure at character position `p` of the input `s`: the input, a
/// caret under the failing place, then `inner`. Input with a line feed gets its line and
/// column and only the failing line is shown. The caret's offset counts bytes; on a
/// failing character that is not ASCII the column does too.
pub open spec fn render_at(s: Seq<char>, p: int, inner: Seq<char>) -> Seq<char> {
    if !has_newline(s) {
        s + "\n"@ + spaces(byte_len(s.take(p))) + "^\n"@ + inner
    } else {
        let n = s.len() as int;
        let q = if p < n {
            p
        } else {
            n - 1
        };
        let ls = last_newline_before(s, q) + 1;
        let line = count_newlines(s.take(ls));
        let col: nat = if p >= n {
            (n - ls) as nat
        } else if byte_width(s[p]) == 1 {
            (p - ls) as nat
        } else {
            byte_len(s.subrange(ls, p))
        };
        let num = decimal(line + 1);
        "parse error at line "@ + num + ", column "@ + decimal(col + 1) + "\n"@ + spaces(
            num.len(),
        ) + " |\n"@ + num + " | "@ + s.subrange(ls, line_end(s, ls)) + "\n"@ + spaces(num.len())
            + " | "@ + spaces(col) + "^\n"@ + inner
    }
}

fn digit_str(d: u128) -> (r: &'static str)
    requires
        d < 10,
    ensures
        r@ == digit_text(d as nat),
{
    if d == 0 {
        "0"
    } else if d == 1 {
        "1"
    } else if d == 2 {
        "2"
    } else if d == 3 {
        "3"
    } else if d == 4 {
        "4"
    } else if d == 5 {
        "5"
    } else if d == 6 {
        "6"
    } else if d == 7 {
        "7"
    } else if d == 8 {
        "8"
    } else {
        "9"
    }
}

/// Appends `n` in decimal notation.
pub fn push_decimal(m: &mut String, n: u128)
    ensures
        final(m)@ == old(m)@ + decimal(n as nat),
    decreases n,
{
    if n < 10 {
        m.append(digit_str(n));
    } else {
        push_decimal(m, n / 10);
        m.append(digit_str(n % 10));
        assert(final(m)@ =~= old(m)@ + decimal(n as nat));
    }
}

/// Appends `k` spaces.
fn push_spaces(m: &mut String, k: u128)
    ensures
        final(m)@ == old(m)@ + spaces(k as nat),
{
    let ghost start = m@;
    let mut i: u128 = 0;
    while i < k
        invariant
            i <= k,
            m@ == start + spaces(i as nat),
        decreases k - i,
    {
        m.append(" ");
        assert(start + spaces((i + 1) as nat) =~= start + spaces(i as nat) + " "@) by {
            reveal_strlit(" ");
        }
        i = i + 1;
    }
}

fn width_of(c: char) -> (r: u128)
    ensures
        r == byte_width(c),
{
    let v = c as u32;
    if v < 0x80 {
        1
    } else if v < 0x800 {
        2
    } else if v < 0x10000 {
        3
    } else {
        4
    }
}

/// The number of bytes of `s[from..to]`.
fn bytes_between(s: &Vec<char>, from: usize, to: usize) -> (r: u128)
    requires
        from <= to <= s@.len(),
    ensures
        r == byte_len(s@.subrange(from as int, to as int)),
        r <= 4 * (to - from),
{
    let mut acc: u128 = 0;
    let mut i: usize = from;
    while i < to
        invariant
            from <= i <= to <= s@.len(),
            acc == byte_len(s@.subrange(from as int, i as int)),
            acc <= 4 * (i - from),
        decreases to - i,
    {
        assert(s@.subrange(from as int, i + 1).drop_last() =~= s@.subrange(from as int, i as int));
        acc = acc + width_of(s[i]);
        i = i + 1;
    }
    acc
}

/// Renders the diagnostic for a failure at character position `p` of `input`.
pub fn render(input: &str, s: &Vec<char>, p: usize, inner: &str) -> (r: String)
    requires
        s@ == input@,
        p <= s@.len(),
    ensures
        r@ == render_at(s@, p as int, inner@),
{
    let n = s.len();
    let mut nl: bool = false;
    let mut i: usize = 0;
    while i < n
        invariant
            n == s@.len(),
            i <= n,
            !nl ==> forall|j: int| 0 <= j < i ==> s@[j] != '\n',
            nl ==> has_newline(s@),
        decreases n - i,
    {
        if s[i] == '\n' {
            nl = true;
        }
        i = i + 1;
    }
    let mut m = input.to_string();
    if !nl {
        m.append("\n");
        push_spaces(&mut m, bytes_between(s, 0, p));
        m.append("^\n");
        m.append(inner);
        assert(s@.subrange(0, p as int) =~= s@.take(p as int));
        return m;
    }
    m = "parse error at line ".to_string();
    let q = if p < n {
        p
    } else {
        n - 1
    };
    // the line starts after the last line feed before q
    let mut ls: usize = q;
    while ls > 0 && s[ls - 1] != '\n'
        invariant
            n == s@.len(),
            ls <= q < n,
            last_newline_before(s@, q as int) == last_newline_before(s@, ls as int),
        decreases ls,
    {
        ls = ls - 1;
    }
    let mut line: u128 = 0;
    let mut j: usize = 0;
    while j < ls
        invariant
            n == s@.len(),
            ls < n,
            j <= ls,
            line == count_newlines(s@.take(j as int)),
            line <= j,
        decreases ls - j,
    {
        assert(s@.take(j + 1).drop_last() =~= s@.take(j as int));
        if s[j] == '\n' {
            line = line + 1;
        }
        j = j + 1;
    }
    let col: u128 = if p >= n {
        (n - ls) as u128
    } else if width_of(s[p]) == 1 {
        (p - ls) as u128
    } else {
        bytes_between(s, ls, p)
    };
    let mut le: usize = ls;
    while le < n && s[le] != '\n'
        invariant
            n == s@.len(),
            ls <= le <= n,
            line_end(s@, ls as int) == line_end(s@, le as int),
        decreases n - le,
    {
        le = le + 1;
    }
    let mut num = String::new();
    push_decimal(&mut num, line + 1);
    let gutter = num.unicode_len() as u128;
    m.append(num.as_str());
    m.append(", column ");
    push_decimal(&mut m, col + 1);
    m.append("\n");
    push_spaces(&mut m, gutter);
    m.append(" |\n");
    m.append(num.as_str());
    m.append(" | ");
    m.append(input.substring_char(ls, le));
    m.append("\n");
    push_spaces(&mut m, gutter);
    m.append(" | ");
    push_spaces(&mut m, col);
    m.append("^\n");
    m.append(inner);
    m
}

} // verus!
