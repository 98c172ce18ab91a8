use vstd::prelude::*;

verus! {

// The claims of a token travel as compact JSON text of a fixed shape. In a
// string, '"' and '\' are escaped with a backslash and control characters are
// written as \u00XX with lower-case hex digits; every other character stands
// as it is.

/// A character that stands as it is in an encoded string.
pub open spec fn printable(c: char) -> bool {
    c as u32 >= 32
}

/// Lower-case hex digit of `d`.
pub open spec fn hex_digit(d: int) -> char {
    "0123456789abcdef"@[d]
}

pub open spec fn is_hex(c: char) -> bool {
    ('0' <= c && c <= '9') || ('a' <= c && c <= 'f')
}

pub open spec fn hex_value(c: char) -> int {
    if '0' <= c && c <= '9' {
        c as int - 48
    } else {
        c as int - 87
    }
}

/// The control character of code `v`, below 32.
pub open spec fn control_char(v: int) -> char {
    "\u{0}\u{1}\u{2}\u{3}\u{4}\u{5}\u{6}\u{7}\u{8}\u{9}\u{a}\u{b}\u{c}\u{d}\u{e}\u{f}\u{10}\u{11}\u{12}\u{13}\u{14}\u{15}\u{16}\u{17}\u{18}\u{19}\u{1a}\u{1b}\u{1c}\u{1d}\u{1e}\u{1f}"@[v]
}

pub open spec fn escape_char(c: char) -> Seq<char> {
    if c == '"' || c == '\\' {
        seq!['\\', c]
    } else if !printable(c) {
        seq!['\\', 'u', '0', '0', hex_digit((c as u32) as int / 16), hex_digit((c as u32) as int % 16)]
    } else {
        seq![c]
    }
}

/// The body of a JSON string literal holding `s`, without its quotes.
pub open spec fn escape(s: Seq<char>) -> Seq<char>
    decreases s.len(),
{
    if s.len() == 0 {
        Seq::empty()
    } else {
        escape_char(s[0]) + escape(s.drop_first())
    }
}

/// A `\u00XX` escape of a control character starts at `i`.
pub open spec fn control_escape_at(t: Seq<char>, i: int) -> bool {
    &&& 0 <= i
    &&& i + 5 < t.len()
    &&& t[i] == '\\'
    &&& t[i + 1] == 'u'
    &&& t[i + 2] == '0'
    &&& t[i + 3] == '0'
    &&& (t[i + 4] == '0' || t[i + 4] == '1')
    &&& is_hex(t[i + 5])
}

/// Reads a string body starting at `i`, up to and including its closing
/// quote: the string and the position after the quote.
pub open spec fn parse_str(t: Seq<char>, i: int) -> Option<(Seq<char>, int)>
    decreases t.len() - i,
{
    if i < 0 || i >= t.len() {
        None
    } else if t[i] == '"' {
        Some((Seq::empty(), i + 1))
    } else if t[i] == '\\' {
        if i + 1 < t.len() && (t[i + 1] == '"' || t[i + 1] == '\\') {
            prepend(t[i + 1], parse_str(t, i + 2))
        } else if control_escape_at(t, i) {
            prepend(
                control_char(16 * (t[i + 4] as int - 48) + hex_value(t[i + 5])),
                parse_str(t, i + 6),
            )
        } else {
            None
        }
    } else if !printable(t[i]) {
        None
    } else {
        prepend(t[i], parse_str(t, i + 1))
    }
}

pub open spec fn prepend(c: char, r: Option<(Seq<char>, int)>) -> Option<(Seq<char>, int)> {
    match r {
        Some((s, j)) => Some((seq![c] + s, j)),
        None => None,
    }
}

proof fn lemma_control_char(v: int)
    requires
        0 <= v < 32,
    ensures
        control_char(v) == (v as char),
        ((v as char) as u32) as int == v,
        !printable(control_char(v)),
{
    reveal_strlit("\u{0}\u{1}\u{2}\u{3}\u{4}\u{5}\u{6}\u{7}\u{8}\u{9}\u{a}\u{b}\u{c}\u{d}\u{e}\u{f}\u{10}\u{11}\u{12}\u{13}\u{14}\u{15}\u{16}\u{17}\u{18}\u{19}\u{1a}\u{1b}\u{1c}\u{1d}\u{1e}\u{1f}");
    let s = seq![(0 as char), (1 as char), (2 as char), (3 as char), (4 as char), (5 as char), (6 as char), (7 as char), (8 as char), (9 as char), (10 as char), (11 as char), (12 as char), (13 as char), (14 as char), (15 as char), (16 as char), (17 as char), (18 as char), (19 as char), (20 as char), (21 as char), (22 as char), (23 as char), (24 as char), (25 as char), (26 as char), (27 as char), (28 as char), (29 as char), (30 as char), (31 as char)];
    assert("\u{0}\u{1}\u{2}\u{3}\u{4}\u{5}\u{6}\u{7}\u{8}\u{9}\u{a}\u{b}\u{c}\u{d}\u{e}\u{f}\u{10}\u{11}\u{12}\u{13}\u{14}\u{15}\u{16}\u{17}\u{18}\u{19}\u{1a}\u{1b}\u{1c}\u{1d}\u{1e}\u{1f}"@ =~= s);
    if v == 0 {
        assert(s[0] == (0 as char));
    }
    else if v == 1 {
        assert(s[1] == (1 as char));
    }
    else if v == 2 {
        assert(s[2] == (2 as char));
    }
    else if v == 3 {
        assert(s[3] == (3 as char));
    }
    else if v == 4 {
        assert(s[4] == (4 as char));
    }
    else if v == 5 {
        assert(s[5] == (5 as char));
    }
    else if v == 6 {
        assert(s[6] == (6 as char));
    }
    else if v == 7 {
        assert(s[7] == (7 as char));
    }
    else if v == 8 {
        assert(s[8] == (8 as char));
    }
    else if v == 9 {
        assert(s[9] == (9 as char));
    }
    else if v == 10 {
        assert(s[10] == (10 as char));
    }
    else if v == 11 {
        assert(s[11] == (11 as char));
    }
    else if v == 12 {
        assert(s[12] == (12 as char));
    }
    else if v == 13 {
        assert(s[13] == (13 as char));
    }
    else if v == 14 {
        assert(s[14] == (14 as char));
    }
    else if v == 15 {
        assert(s[15] == (15 as char));
    }
    else if v == 16 {
        assert(s[16] == (16 as char));
    }
    else if v == 17 {
        assert(s[17] == (17 as char));
    }
    else if v == 18 {
        assert(s[18] == (18 as char));
    }
    else if v == 19 {
        assert(s[19] == (19 as char));
    }
    else if v == 20 {
        assert(s[20] == (20 as char));
    }
    else if v == 21 {
        assert(s[21] == (21 as char));
    }
    else if v == 22 {
        assert(s[22] == (22 as char));
    }
    else if v == 23 {
        assert(s[23] == (23 as char));
    }
    else if v == 24 {
        assert(s[24] == (24 as char));
    }
    else if v == 25 {
        assert(s[25] == (25 as char));
    }
    else if v == 26 {
        assert(s[26] == (26 as char));
    }
    else if v == 27 {
        assert(s[27] == (27 as char));
    }
    else if v == 28 {
        assert(s[28] == (28 as char));
    }
    else if v == 29 {
        assert(s[29] == (29 as char));
    }
    else if v == 30 {
        assert(s[30] == (30 as char));
    }
    else if v == 31 {
        assert(s[31] == (31 as char));
    }
}

proof fn lemma_char_of_code(c: char)
    requires
        (c as u32) < 32,
    ensures
        ((c as u32) as int) as char == c,
{
}

proof fn lemma_hex_digit(d: int)
    requires
        0 <= d < 16,
    ensures
        is_hex(hex_digit(d)),
        hex_value(hex_digit(d)) == d,
{
    reveal_strlit("0123456789abcdef");
    let s = seq!['0', '1', '2', '3', '4', '5', '6', '7', '8', '9', 'a', 'b', 'c', 'd', 'e', 'f'];
    assert("0123456789abcdef"@ =~= s);
    if d == 0 {
        assert(s[0] == '0');
    }
    else if d == 1 {
        assert(s[1] == '1');
    }
    else if d == 2 {
        assert(s[2] == '2');
    }
    else if d == 3 {
        assert(s[3] == '3');
    }
    else if d == 4 {
        assert(s[4] == '4');
    }
    else if d == 5 {
        assert(s[5] == '5');
    }
    else if d == 6 {
        assert(s[6] == '6');
    }
    else if d == 7 {
        assert(s[7] == '7');
    }
    else if d == 8 {
        assert(s[8] == '8');
    }
    else if d == 9 {
        assert(s[9] == '9');
    }
    else if d == 10 {
        assert(s[10] == 'a');
    }
    else if d == 11 {
        assert(s[11] == 'b');
    }
    else if d == 12 {
        assert(s[12] == 'c');
    }
    else if d == 13 {
        assert(s[13] == 'd');
    }
    else if d == 14 {
        assert(s[14] == 'e');
    }
    else if d == 15 {
        assert(s[15] == 'f');
    }
}

pub proof fn lemma_escape_append(a: Seq<char>, b: Seq<char>)
    ensures
        escape(a + b) == escape(a) + escape(b),
    decreases a.len(),
{
    if a.len() == 0 {
        assert(a + b =~= b);
    } else {
        assert((a + b).drop_first() =~= a.drop_first() + b);
        lemma_escape_append(a.drop_first(), b);
        assert(escape(a + b) =~= escape_char(a[0]) + escape(a.drop_first() + b));
    }
}

/// Reading back an escaped string gives the string, and stops right after the
/// closing quote.
pub proof fn lemma_parse_escaped(s: Seq<char>, t: Seq<char>, i: int)
    requires
        0 <= i,
        i + escape(s).len() < t.len(),
        t.subrange(i, i + escape(s).len()) == escape(s),
        t[i + escape(s).len()] == '"',
    ensures
        parse_str(t, i) == Some((s, i + escape(s).len() + 1)),
    decreases s.len(),
{
    if s.len() == 0 {
    } else {
        let e = escape_char(s[0]);
        let rest = s.drop_first();
        assert(escape(s) == e + escape(rest));
        assert(t.subrange(i, i + e.len()) =~= e) by {
            assert(t.subrange(i, i + e.len()) =~= t.subrange(i, i + escape(s).len()).subrange(0, e.len() as int));
        }
        let j = i + e.len();
        assert(t.subrange(j, j + escape(rest).len()) =~= escape(rest)) by {
            assert(t.subrange(j, j + escape(rest).len()) =~= t.subrange(i, i + escape(s).len()).subrange(e.len() as int, escape(s).len() as int));
        }
        lemma_parse_escaped(rest, t, j);
        assert forall|k: int| 0 <= k < e.len() implies t[i + k] == e[k] by {
            assert(t[i + k] == t.subrange(i, i + e.len())[k]);
        }
        let c = s[0];
        if c == '"' || c == '\\' {
        } else if !printable(c) {
            let v = (c as u32) as int;
            assert(0 <= v < 32);
            lemma_hex_digit(v / 16);
            lemma_hex_digit(v % 16);
            assert(t[i + 4] == hex_digit(v / 16));
            assert(v / 16 == 0 || v / 16 == 1);
            if v / 16 == 0 {
                assert(hex_digit(0) == '0') by { reveal_strlit("0123456789abcdef"); }
            } else {
                assert(hex_digit(1) == '1') by { reveal_strlit("0123456789abcdef"); }
            }
            assert(t[i + 4] as int - 48 == v / 16);
            lemma_control_char(v);
            assert(16 * (v / 16) + v % 16 == v);
            lemma_char_of_code(c);
        }
        assert(seq![s[0]] + rest =~= s);
    }
}

/// Appends the escaped form of `s` to `out`.
pub fn push_escaped(out: &mut String, s: &str)
    ensures
        final(out)@ == old(out)@ + escape(s@),
{
    let n = s.unicode_len();
    let ghost start = out@;
    let digits = "0123456789abcdef";
    proof {
        reveal_strlit("0123456789abcdef");
    }
    let mut i: usize = 0;
    while i < n
        invariant
            n == s@.len(),
            i <= n,
            out@ == start + escape(s@.subrange(0, i as int)),
            digits@ == "0123456789abcdef"@,
            digits@.len() == 16,
        decreases n - i,
    {
        let c = s.get_char(i);
        proof {
            reveal_strlit("\\\"");
            reveal_strlit("\\\\");
            reveal_strlit("\\u00");
            lemma_escape_append(s@.subrange(0, i as int), seq![c]);
            assert(s@.subrange(0, i + 1) =~= s@.subrange(0, i as int) + seq![c]);
            assert(escape(seq![c]) =~= escape_char(c)) by {
                assert(seq![c].drop_first() =~= Seq::<char>::empty());
                assert(escape(Seq::<char>::empty()) == Seq::<char>::empty());
                assert(seq![c][0] == c);
                assert(escape(seq![c]) == escape_char(seq![c][0]) + escape(seq![c].drop_first()));
            }
        }
        if c == '"' {
            out.append("\\\"");
        } else if c == '\\' {
            out.append("\\\\");
        } else if (c as u32) < 32 {
            let v = c as u32;
            let hi = (v / 16) as usize;
            let lo = (v % 16) as usize;
            out.append("\\u00");
            let h = digits.substring_char(hi, hi + 1);
            let l = digits.substring_char(lo, lo + 1);
            proof {
                assert(h@ =~= seq![hex_digit(hi as int)]);
                assert(l@ =~= seq![hex_digit(lo as int)]);
            }
            out.append(h);
            out.append(l);
        } else {
            let one = s.substring_char(i, i + 1);
            proof {
                assert(one@ =~= seq![c]);
            }
            out.append(one);
        }
        i = i + 1;
        proof {
            assert(out@ =~= start + escape(s@.subrange(0, i as int)));
        }
    }
    proof {
        assert(s@.subrange(0, n as int) =~= s@);
    }
}

/// Reads a string body of `t` starting at `i`, as `parse_str` says.
pub fn read_string(t: &str, i: usize) -> (r: Option<(String, usize)>)
    ensures
        match r {
            Some((s, j)) => parse_str(t@, i as int) == Some((s@, j as int)),
            None => parse_str(t@, i as int) is None,
        },
{
    let n = t.unicode_len();
    let controls = "\u{0}\u{1}\u{2}\u{3}\u{4}\u{5}\u{6}\u{7}\u{8}\u{9}\u{a}\u{b}\u{c}\u{d}\u{e}\u{f}\u{10}\u{11}\u{12}\u{13}\u{14}\u{15}\u{16}\u{17}\u{18}\u{19}\u{1a}\u{1b}\u{1c}\u{1d}\u{1e}\u{1f}";
    proof {
        reveal_strlit("\u{0}\u{1}\u{2}\u{3}\u{4}\u{5}\u{6}\u{7}\u{8}\u{9}\u{a}\u{b}\u{c}\u{d}\u{e}\u{f}\u{10}\u{11}\u{12}\u{13}\u{14}\u{15}\u{16}\u{17}\u{18}\u{19}\u{1a}\u{1b}\u{1c}\u{1d}\u{1e}\u{1f}");
    }
    let mut acc = String::new();
    let mut k: usize = i;
    while k < n
        invariant
            n == t@.len(),
            i <= k,
            parse_str(t@, i as int) == prefix_with(acc@, parse_str(t@, k as int)),
            controls@ == "\u{0}\u{1}\u{2}\u{3}\u{4}\u{5}\u{6}\u{7}\u{8}\u{9}\u{a}\u{b}\u{c}\u{d}\u{e}\u{f}\u{10}\u{11}\u{12}\u{13}\u{14}\u{15}\u{16}\u{17}\u{18}\u{19}\u{1a}\u{1b}\u{1c}\u{1d}\u{1e}\u{1f}"@,
            controls@.len() == 32,
        decreases n - k,
    {
        let c = t.get_char(k);
        if c == '"' {
            proof {
                assert(acc@ + Seq::<char>::empty() =~= acc@);
            }
            return Some((acc, k + 1));
        } else if c == '\\' {
            if k + 1 >= n {
                return None;
            }
            let d = t.get_char(k + 1);
            if d == '"' || d == '\\' {
                let one = t.substring_char(k + 1, k + 2);
                proof {
                    assert(one@ =~= seq![d]);
                    lemma_prefix_step(acc@, d, parse_str(t@, k + 2));
                }
                acc.append(one);
                k = k + 2;
            } else {
                if n - k <= 5 {
                    return None;
                }
                let u = t.get_char(k + 2);
                let z = t.get_char(k + 3);
                let hi = t.get_char(k + 4);
                let lo = t.get_char(k + 5);
                let lo_ok = ('0' <= lo && lo <= '9') || ('a' <= lo && lo <= 'f');
                if d != 'u' || u != '0' || z != '0' || !(hi == '0' || hi == '1') || !lo_ok {
                    return None;
                }
                let hv = (hi as u32 - 48) as usize;
                let lv = if '0' <= lo && lo <= '9' {
                    (lo as u32 - 48) as usize
                } else {
                    (lo as u32 - 87) as usize
                };
                let v = 16 * hv + lv;
                let one = controls.substring_char(v, v + 1);
                proof {
                    assert(control_escape_at(t@, k as int));
                    assert(v as int == 16 * (t@[k + 4] as int - 48) + hex_value(t@[k + 5]));
                    assert(one@ =~= seq![control_char(v as int)]);
                    lemma_prefix_step(acc@, control_char(v as int), parse_str(t@, k + 6));
                }
                acc.append(one);
                k = k + 6;
            }
        } else if (c as u32) < 32 {
            return None;
        } else {
            let one = t.substring_char(k, k + 1);
            proof {
                assert(one@ =~= seq![c]);
                lemma_prefix_step(acc@, c, parse_str(t@, k + 1));
            }
            acc.append(one);
            k = k + 1;
        }
    }
    None
}

pub open spec fn prefix_with(a: Seq<char>, r: Option<(Seq<char>, int)>) -> Option<(Seq<char>, int)> {
    match r {
        Some((s, j)) => Some((a + s, j)),
        None => None,
    }
}

proof fn lemma_prefix_step(a: Seq<char>, c: char, r: Option<(Seq<char>, int)>)
    ensures
        prefix_with(a, prepend(c, r)) == prefix_with(a + seq![c], r),
{
    match r {
        Some((s, j)) => {
            assert(a + (seq![c] + s) =~= (a + seq![c]) + s);
        },
        None => {},
    }
}


pub open spec fn is_digit(c: char) -> bool {
    '0' <= c && c <= '9'
}

pub open spec fn digit_char(d: int) -> char {
    "0123456789"@[d]
}

pub open spec fn digits_value(s: Seq<char>) -> int
    decreases s.len(),
{
    if s.len() == 0 {
        0
    } else {
        digits_value(s.drop_last()) * 10 + (s.last() as u32 - 48)
    }
}

/// Decimal form of `n`, without leading zeros.
pub open spec fn decimal(n: nat) -> Seq<char>
    decreases n,
{
    if n < 10 {
        seq![digit_char(n as int)]
    } else {
        decimal(n / 10).push(digit_char((n % 10) as int))
    }
}

/// End of the run of digits that starts at `i`.
pub open spec fn digit_run(t: Seq<char>, i: int) -> int
    decreases t.len() - i,
{
    if 0 <= i < t.len() && is_digit(t[i]) {
        digit_run(t, i + 1)
    } else {
        i
    }
}

/// Reads an unsigned 32-bit decimal number at `i`, written without leading
/// zeros: its value and the position after its last digit.
pub open spec fn parse_num(t: Seq<char>, i: int) -> Option<(u32, int)> {
    let j = digit_run(t, i);
    if j == i || (j - i > 1 && t[i] == '0') || digits_value(t.subrange(i, j)) > u32::MAX {
        None
    } else {
        Some((digits_value(t.subrange(i, j)) as u32, j))
    }
}

proof fn lemma_digit_char(d: int)
    requires
        0 <= d < 10,
    ensures
        is_digit(digit_char(d)),
        digit_char(d) as u32 - 48 == d,
{
    reveal_strlit("0123456789");
    let s = seq!['0', '1', '2', '3', '4', '5', '6', '7', '8', '9'];
    assert("0123456789"@ =~= s);
    assert(digit_char(d) == s[d]);
    if d == 0 { assert(s[0] == '0'); }
    else if d == 1 { assert(s[1] == '1'); }
    else if d == 2 { assert(s[2] == '2'); }
    else if d == 3 { assert(s[3] == '3'); }
    else if d == 4 { assert(s[4] == '4'); }
    else if d == 5 { assert(s[5] == '5'); }
    else if d == 6 { assert(s[6] == '6'); }
    else if d == 7 { assert(s[7] == '7'); }
    else if d == 8 { assert(s[8] == '8'); }
    else { assert(s[9] == '9'); }
}

proof fn lemma_decimal(n: nat)
    ensures
        digits_value(decimal(n)) == n,
        forall|k: int| 0 <= k < decimal(n).len() ==> is_digit(#[trigger] decimal(n)[k]),
    decreases n,
{
    if n < 10 {
        lemma_digit_char(n as int);
        assert(decimal(n).drop_last() =~= Seq::<char>::empty());
        assert(digits_value(Seq::<char>::empty()) == 0);
        assert(decimal(n).last() == digit_char(n as int));
    } else {
        lemma_decimal(n / 10);
        lemma_digit_char((n % 10) as int);
        assert(decimal(n).drop_last() =~= decimal(n / 10));
        assert(n == (n / 10) * 10 + n % 10);
        let d = decimal(n);
        assert(d.last() == digit_char((n % 10) as int));
        assert forall|k: int| 0 <= k < d.len() implies is_digit(#[trigger] d[k]) by {
            if k < d.len() - 1 {
                assert(d[k] == decimal(n / 10)[k]);
            }
        }
    }
}

proof fn lemma_digit_run(t: Seq<char>, i: int, j: int)
    requires
        0 <= i <= j <= t.len(),
        forall|k: int| i <= k < j ==> is_digit(#[trigger] t[k]),
        j == t.len() || !is_digit(t[j]),
    ensures
        digit_run(t, i) == j,
    decreases j - i,
{
    if i < j {
        lemma_digit_run(t, i + 1, j);
    }
}

/// Reading back the decimal form of a number gives the number.
pub proof fn lemma_parse_decimal(n: u32, t: Seq<char>, i: int)
    requires
        0 <= i,
        i + decimal(n as nat).len() <= t.len(),
        t.subrange(i, i + decimal(n as nat).len()) == decimal(n as nat),
        i + decimal(n as nat).len() == t.len() || !is_digit(t[i + decimal(n as nat).len()]),
    ensures
        parse_num(t, i) == Some((n, i + decimal(n as nat).len())),
{
    let d = decimal(n as nat);
    lemma_decimal(n as nat);
    assert forall|k: int| i <= k < i + d.len() implies is_digit(#[trigger] t[k]) by {
        assert(t[k] == t.subrange(i, i + d.len())[k - i]);
    }
    lemma_digit_run(t, i, i + d.len());
    lemma_decimal_leading(n as nat);
    if d.len() > 1 {
        assert(t[i] == d[0]);
    }
}

/// Appends the decimal form of `n` to `out`.
pub fn push_decimal(out: &mut String, n: u32)
    ensures
        final(out)@ == old(out)@ + decimal(n as nat),
    decreases n,
{
    if n >= 10 {
        push_decimal(out, n / 10);
    }
    let d = (n % 10) as usize;
    let digits = "0123456789";
    proof {
        reveal_strlit("0123456789");
    }
    let one = digits.substring_char(d, d + 1);
    proof {
        assert(one@ =~= seq![digit_char(d as int)]);
    }
    out.append(one);
    proof {
        if n >= 10 {
            assert(final(out)@ =~= old(out)@ + decimal(n as nat));
        } else {
            assert(final(out)@ =~= old(out)@ + decimal(n as nat));
        }
    }
}

proof fn lemma_digits_value_nonneg(s: Seq<char>)
    requires
        forall|m: int| 0 <= m < s.len() ==> is_digit(#[trigger] s[m]),
    ensures
        digits_value(s) >= 0,
    decreases s.len(),
{
    if s.len() > 0 {
        let p = s.drop_last();
        assert forall|m: int| 0 <= m < p.len() implies is_digit(#[trigger] p[m]) by {
            assert(p[m] == s[m]);
        }
        lemma_digits_value_nonneg(p);
        assert(is_digit(s[s.len() - 1]));
    }
}

proof fn lemma_digits_value_grows(s: Seq<char>, k: int)
    requires
        0 <= k <= s.len(),
        forall|m: int| 0 <= m < s.len() ==> is_digit(#[trigger] s[m]),
    ensures
        digits_value(s.subrange(0, k)) <= digits_value(s),
    decreases s.len() - k,
{
    if k < s.len() {
        let p = s.subrange(0, k + 1);
        let q = s.subrange(0, k);
        assert(p.drop_last() =~= q);
        assert(is_digit(s[k]));
        assert(p.last() == s[k]);
        assert forall|m: int| 0 <= m < q.len() implies is_digit(#[trigger] q[m]) by {
            assert(q[m] == s[m]);
        }
        lemma_digits_value_nonneg(q);
        assert(digits_value(q) <= digits_value(p));
        lemma_digits_value_grows(s, k + 1);
    } else {
        assert(s.subrange(0, k) =~= s);
    }
}

/// Reads a number of `t` at `i`, as `parse_num` says.
pub fn read_number(t: &str, i: usize) -> (r: Option<(u32, usize)>)
    ensures
        match r {
            Some((v, j)) => parse_num(t@, i as int) == Some((v, j as int)),
            None => parse_num(t@, i as int) is None,
        },
{
    let n = t.unicode_len();
    if i > n {
        return None;
    }
    let mut acc: u64 = 0;
    let mut k: usize = i;
    while k < n
        invariant
            n == t@.len(),
            i <= k <= n,
            acc == digits_value(t@.subrange(i as int, k as int)),
            acc <= u32::MAX,
            forall|m: int| i <= m < k ==> is_digit(#[trigger] t@[m]),
            digit_run(t@, i as int) == digit_run(t@, k as int),
        decreases n - k,
    {
        let c = t.get_char(k);
        if !('0' <= c && c <= '9') {
            proof {
                lemma_digit_run(t@, k as int, k as int);
            }
            if k == i || (k - i > 1 && t.get_char(i) == '0') {
                return None;
            }
            return Some((acc as u32, k));
        }
        let d = (c as u32 - 48) as u64;
        proof {
            let s = t@.subrange(i as int, k + 1);
            assert(s.drop_last() =~= t@.subrange(i as int, k as int));
            assert(s.last() == c);
        }
        acc = acc * 10 + d;
        if acc > 4294967295 {
            proof {
                let j = digit_run(t@, k as int);
                assert(is_digit(t@[k as int]));
                assert(j == digit_run(t@, k + 1));
                lemma_digit_run_bounds(t@, k + 1);
                assert forall|m: int| i <= m < j implies is_digit(#[trigger] t@[m]) by {
                    if m >= k {
                        lemma_digit_run_digits(t@, k as int, m);
                    }
                }
                let w = t@.subrange(i as int, j);
                assert forall|m: int| 0 <= m < w.len() implies is_digit(#[trigger] w[m]) by {
                    assert(w[m] == t@[i + m]);
                }
                lemma_digits_value_grows(w, k + 1 - i);
                assert(w.subrange(0, k + 1 - i) =~= t@.subrange(i as int, k + 1));
            }
            return None;
        }
        k = k + 1;
    }
    proof {
        lemma_digit_run(t@, k as int, k as int);
    }
    if k == i || (k - i > 1 && t.get_char(i) == '0') {
        return None;
    }
    Some((acc as u32, k))
}

proof fn lemma_digit_run_bounds(t: Seq<char>, i: int)
    requires
        0 <= i <= t.len(),
    ensures
        i <= digit_run(t, i) <= t.len(),
    decreases t.len() - i,
{
    if i < t.len() && is_digit(t[i]) {
        lemma_digit_run_bounds(t, i + 1);
    }
}

proof fn lemma_digit_run_digits(t: Seq<char>, i: int, m: int)
    requires
        0 <= i <= m < digit_run(t, i),
    ensures
        is_digit(t[m]),
    decreases m - i,
{
    if 0 <= i < t.len() && is_digit(t[i]) {
        if m > i {
            lemma_digit_run_digits(t, i + 1, m);
        }
    }
}


/// `lit` stands at the start of `t`: what follows it.
pub open spec fn take_lit(t: Seq<char>, lit: Seq<char>) -> Option<Seq<char>> {
    if lit.len() <= t.len() && t.subrange(0, lit.len() as int) == lit {
        Some(t.subrange(lit.len() as int, t.len() as int))
    } else {
        None
    }
}

/// A string body at the start of `t`, and what follows its closing quote.
pub open spec fn take_str(t: Seq<char>) -> Option<(Seq<char>, Seq<char>)> {
    match parse_str(t, 0) {
        Some((s, j)) => Some((s, t.subrange(j, t.len() as int))),
        None => None,
    }
}

/// A number at the start of `t`, and what follows its last digit.
pub open spec fn take_num(t: Seq<char>) -> Option<(u32, Seq<char>)> {
    match parse_num(t, 0) {
        Some((v, j)) => Some((v, t.subrange(j, t.len() as int))),
        None => None,
    }
}

/// A string with its closing quote, as it follows the opening one.
pub open spec fn str_field(s: Seq<char>) -> Seq<char> {
    escape(s) + seq!['"']
}

pub proof fn lemma_take_lit(lit: Seq<char>, r: Seq<char>)
    ensures
        take_lit(lit + r, lit) == Some(r),
{
    assert((lit + r).subrange(0, lit.len() as int) =~= lit);
    assert((lit + r).subrange(lit.len() as int, (lit + r).len() as int) =~= r);
}

pub proof fn lemma_take_str(s: Seq<char>, r: Seq<char>)
    ensures
        take_str(str_field(s) + r) == Some((s, r)),
{
    let t = str_field(s) + r;
    let n = escape(s).len();
    assert(t.subrange(0, n as int) =~= escape(s));
    assert(t[n as int] == '"');
    lemma_parse_escaped(s, t, 0);
    assert(t.subrange((n + 1) as int, t.len() as int) =~= r);
}

pub proof fn lemma_take_num(n: u32, r: Seq<char>)
    requires
        r.len() == 0 || !is_digit(r[0]),
    ensures
        take_num(decimal(n as nat) + r) == Some((n, r)),
{
    let t = decimal(n as nat) + r;
    let k = decimal(n as nat).len();
    assert(t.subrange(0, k as int) =~= decimal(n as nat));
    if r.len() > 0 {
        assert(t[k as int] == r[0]);
    }
    lemma_parse_decimal(n, t, 0);
    assert(t.subrange(k as int, t.len() as int) =~= r);
}

proof fn lemma_parse_str_bounds(t: Seq<char>, i: int)
    ensures
        parse_str(t, i) matches Some((s, j)) ==> i < j <= t.len(),
    decreases t.len() - i,
{
    if 0 <= i < t.len() {
        if t[i] == '\\' {
            if i + 1 < t.len() && (t[i + 1] == '"' || t[i + 1] == '\\') {
                lemma_parse_str_bounds(t, i + 2);
            } else if control_escape_at(t, i) {
                lemma_parse_str_bounds(t, i + 6);
            }
        } else if t[i] != '"' && printable(t[i]) {
            lemma_parse_str_bounds(t, i + 1);
        }
    }
}

/// Strips `lit` from the start of `t`.
pub fn strip_literal<'a>(t: &'a str, lit: &str) -> (r: Option<&'a str>)
    ensures
        match r {
            Some(rest) => take_lit(t@, lit@) == Some(rest@),
            None => take_lit(t@, lit@) is None,
        },
{
    let n = t.unicode_len();
    let m = lit.unicode_len();
    if m > n {
        return None;
    }
    let head = String::from_str(t.substring_char(0, m));
    let expected = String::from_str(lit);
    if head == expected {
        Some(t.substring_char(m, n))
    } else {
        None
    }
}

/// Reads a string body at the start of `t`, as `take_str` says.
pub fn take_string<'a>(t: &'a str) -> (r: Option<(String, &'a str)>)
    ensures
        match r {
            Some((s, rest)) => take_str(t@) == Some((s@, rest@)),
            None => take_str(t@) is None,
        },
{
    match read_string(t, 0) {
        Some((s, j)) => {
            proof {
                lemma_parse_str_bounds(t@, 0);
            }
            let n = t.unicode_len();
            Some((s, t.substring_char(j, n)))
        },
        None => None,
    }
}

/// Reads a number at the start of `t`, as `take_num` says.
pub fn take_number<'a>(t: &'a str) -> (r: Option<(u32, &'a str)>)
    ensures
        match r {
            Some((v, rest)) => take_num(t@) == Some((v, rest@)),
            None => take_num(t@) is None,
        },
{
    match read_number(t, 0) {
        Some((v, j)) => {
            proof {
                lemma_digit_run_bounds(t@, 0);
            }
            let n = t.unicode_len();
            Some((v, t.substring_char(j, n)))
        },
        None => None,
    }
}


proof fn lemma_char_eq(a: char, b: char)
    requires
        a as u32 == b as u32,
    ensures
        a == b,
{
}

/// Decimal forms have no leading zero.
proof fn lemma_decimal_leading(n: nat)
    ensures
        decimal(n).len() >= 1,
        decimal(n).len() > 1 ==> decimal(n)[0] != '0',
        n >= 1 ==> decimal(n)[0] != '0',
    decreases n,
{
    if n < 10 {
        lemma_digit_char(n as int);
        if n >= 1 && decimal(n)[0] == '0' {
            assert(digit_char(n as int) as u32 - 48 == n);
        }
    } else {
        lemma_decimal_leading(n / 10);
        assert(decimal(n)[0] == decimal(n / 10)[0]);
    }
}

proof fn lemma_digits_value_positive(p: Seq<char>)
    requires
        p.len() >= 1,
        forall|m: int| 0 <= m < p.len() ==> is_digit(#[trigger] p[m]),
        p[0] != '0',
    ensures
        digits_value(p) >= 1,
    decreases p.len(),
{
    if p.len() == 1 {
        assert(p.drop_last() =~= Seq::<char>::empty());
        assert(digits_value(Seq::<char>::empty()) == 0);
        if p[0] as u32 == 48 {
            lemma_char_eq(p[0], '0');
        }
    } else {
        let q = p.drop_last();
        assert forall|m: int| 0 <= m < q.len() implies is_digit(#[trigger] q[m]) by {
            assert(q[m] == p[m]);
        }
        lemma_digits_value_positive(q);
        assert(is_digit(p[p.len() - 1]));
    }
}

/// A digit string without leading zeros is the decimal form of its value.
proof fn lemma_decimal_of_digits(s: Seq<char>)
    requires
        s.len() >= 1,
        forall|m: int| 0 <= m < s.len() ==> is_digit(#[trigger] s[m]),
        s.len() == 1 || s[0] != '0',
    ensures
        digits_value(s) >= 0,
        decimal(digits_value(s) as nat) == s,
    decreases s.len(),
{
    let p = s.drop_last();
    let d = s.last();
    assert(is_digit(d));
    let dv = d as u32 - 48;
    assert(0 <= dv < 10);
    lemma_digit_char(dv as int);
    lemma_char_eq(digit_char(dv as int), d);
    if s.len() == 1 {
        assert(p =~= Seq::<char>::empty());
        assert(digits_value(Seq::<char>::empty()) == 0);
        assert(decimal(dv as nat) =~= s);
    } else {
        assert forall|m: int| 0 <= m < p.len() implies is_digit(#[trigger] p[m]) by {
            assert(p[m] == s[m]);
        }
        assert(p[0] == s[0]);
        lemma_decimal_of_digits(p);
        lemma_digits_value_positive(p);
        let a = digits_value(p);
        let v = a * 10 + dv;
        assert(digits_value(s) == v);
        assert(v / 10 == a && v % 10 == dv) by (nonlinear_arith)
            requires v == a * 10 + dv, 0 <= dv < 10, a >= 1;
        assert(decimal(v as nat) == decimal(a as nat).push(digit_char(dv as int)));
        assert(p.push(d) =~= s);
    }
}

/// What `parse_num` accepts is the decimal form of the number it gives.
pub proof fn lemma_parse_num_sound(t: Seq<char>, i: int)
    requires
        0 <= i <= t.len(),
        parse_num(t, i) is Some,
    ensures
        ({
            let (v, j) = parse_num(t, i)->Some_0;
            i < j <= t.len() && t.subrange(i, j) == decimal(v as nat)
        }),
{
    let j = digit_run(t, i);
    lemma_digit_run_bounds(t, i);
    let s = t.subrange(i, j);
    assert forall|m: int| 0 <= m < s.len() implies is_digit(#[trigger] s[m]) by {
        lemma_digit_run_digits(t, i, i + m);
    }
    lemma_decimal_of_digits(s);
}


proof fn lemma_escape_one(c: char, rest: Seq<char>)
    ensures
        escape(seq![c] + rest) == escape_char(c) + escape(rest),
{
    lemma_escape_append(seq![c], rest);
    assert(seq![c].drop_first() =~= Seq::<char>::empty());
    assert(escape(Seq::<char>::empty()) == Seq::<char>::empty());
    assert(seq![c][0] == c);
    assert(escape(seq![c]) == escape_char(seq![c][0]) + escape(seq![c].drop_first()));
    assert(escape(seq![c]) =~= escape_char(c));
}

proof fn lemma_hex_round_trip(c: char)
    requires
        is_hex(c),
    ensures
        0 <= hex_value(c) < 16,
        hex_digit(hex_value(c)) == c,
{
    let d = hex_value(c);
    lemma_hex_digit(d);
    let h = hex_digit(d);
    assert(h as int == c as int);
    lemma_char_eq(h, c);
}

/// What `parse_str` accepts is the escaped form of the string it gives,
/// followed by the closing quote.
pub proof fn lemma_parse_str_sound(t: Seq<char>, i: int)
    requires
        parse_str(t, i) is Some,
    ensures
        ({
            let (s, j) = parse_str(t, i)->Some_0;
            0 <= i < j <= t.len() && t.subrange(i, j) == escape(s) + seq!['"']
        }),
    decreases t.len() - i,
{
    let (s, j) = parse_str(t, i)->Some_0;
    if t[i] == '"' {
        assert(escape(Seq::<char>::empty()) == Seq::<char>::empty());
        assert(t.subrange(i, j) =~= seq!['"']);
    } else {
        let (c, k) = if t[i] == '\\' && i + 1 < t.len() && (t[i + 1] == '"' || t[i + 1] == '\\') {
            (t[i + 1], i + 2)
        } else if t[i] == '\\' {
            (control_char(16 * (t[i + 4] as int - 48) + hex_value(t[i + 5])), i + 6)
        } else {
            (t[i], i + 1)
        };
        lemma_parse_str_sound(t, k);
        let (s2, j2) = parse_str(t, k)->Some_0;
        assert(s == seq![c] + s2 && j == j2);
        lemma_escape_one(c, s2);
        let e = escape_char(c);
        assert(e.len() == k - i) by {
            if t[i] == '\\' && !(i + 1 < t.len() && (t[i + 1] == '"' || t[i + 1] == '\\')) {
                let v = 16 * (t[i + 4] as int - 48) + hex_value(t[i + 5]);
                lemma_hex_round_trip(t[i + 5]);
                assert(0 <= v < 32);
                lemma_control_char(v);
            }
        }
        assert(t.subrange(i, k) =~= e) by {
            if t[i] == '\\' && !(i + 1 < t.len() && (t[i + 1] == '"' || t[i + 1] == '\\')) {
                let hi = t[i + 4] as int - 48;
                let v = 16 * hi + hex_value(t[i + 5]);
                lemma_hex_round_trip(t[i + 5]);
                lemma_control_char(v);
                assert(c == (v as char));
                assert(((c as u32) as int) == v);
                assert(v / 16 == hi && v % 16 == hex_value(t[i + 5]));
                reveal_strlit("0123456789abcdef");
                assert(hex_digit(hi) == t[i + 4]);
            }
        }
        assert(t.subrange(i, j) =~= t.subrange(i, k) + t.subrange(k, j));
        assert(escape(s) + seq!['"'] =~= e + (escape(s2) + seq!['"']));
    }
}

/// `take_lit` gives what follows the literal.
pub proof fn lemma_take_lit_sound(t: Seq<char>, lit: Seq<char>)
    requires
        take_lit(t, lit) is Some,
    ensures
        t == lit + take_lit(t, lit)->Some_0,
{
    assert(t =~= t.subrange(0, lit.len() as int) + t.subrange(lit.len() as int, t.len() as int));
}

/// `take_str` splits off a string field.
pub proof fn lemma_take_str_sound(t: Seq<char>)
    requires
        take_str(t) is Some,
    ensures
        t == str_field(take_str(t)->Some_0.0) + take_str(t)->Some_0.1,
{
    lemma_parse_str_sound(t, 0);
    let (s, j) = parse_str(t, 0)->Some_0;
    assert(t =~= t.subrange(0, j) + t.subrange(j, t.len() as int));
}

/// `take_num` splits off the decimal form of a number.
pub proof fn lemma_take_num_sound(t: Seq<char>)
    requires
        take_num(t) is Some,
    ensures
        t == decimal(take_num(t)->Some_0.0 as nat) + take_num(t)->Some_0.1,
{
    lemma_parse_num_sound(t, 0);
    let (v, j) = parse_num(t, 0)->Some_0;
    assert(t =~= t.subrange(0, j) + t.subrange(j, t.len() as int));
}

} // verus!
