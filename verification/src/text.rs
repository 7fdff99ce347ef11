use vstd::prelude::*;
use vstd::string::StrSliceExecFns;

verus! {

/// Unicode `White_Space`, the property that `char::is_whitespace` tests.
pub open spec fn spec_is_whitespace(c: char) -> bool {
    let u = c as u32;
    ||| 0x09 <= u <= 0x0d
    ||| u == 0x20
    ||| u == 0x85
    ||| u == 0xa0
    ||| u == 0x1680
    ||| 0x2000 <= u <= 0x200a
    ||| u == 0x2028
    ||| u == 0x2029
    ||| u == 0x202f
    ||| u == 0x205f
    ||| u == 0x3000
}

/// `s` without its leading whitespace.
pub open spec fn trim_start(s: Seq<char>) -> Seq<char>
    decreases s.len(),
{
    if s.len() > 0 && spec_is_whitespace(s[0]) {
        trim_start(s.drop_first())
    } else {
        s
    }
}

/// `s` without its trailing whitespace.
pub open spec fn trim_end(s: Seq<char>) -> Seq<char>
    decreases s.len(),
{
    if s.len() > 0 && spec_is_whitespace(s.last()) {
        trim_end(s.drop_last())
    } else {
        s
    }
}

/// `s` without leading and trailing whitespace.
pub open spec fn trimmed(s: Seq<char>) -> Seq<char> {
    trim_end(trim_start(s))
}

/// Whether `s` holds nothing but whitespace.
pub open spec fn is_blank_text(s: Seq<char>) -> bool {
    trimmed(s).len() == 0
}

/// Whether `c` is Unicode whitespace.
pub fn is_whitespace(c: char) -> (b: bool)
    ensures
        b == spec_is_whitespace(c),
{
    let u = c as u32;
    (0x09 <= u && u <= 0x0d) || u == 0x20 || u == 0x85 || u == 0xa0 || u == 0x1680 || (0x2000
        <= u && u <= 0x200a) || u == 0x2028 || u == 0x2029 || u == 0x202f || u == 0x205f || u
        == 0x3000
}

proof fn lemma_trim_start_at(s: Seq<char>, start: int)
    requires
        0 <= start <= s.len(),
        forall|j: int| 0 <= j < start ==> spec_is_whitespace(#[trigger] s[j]),
        start == s.len() || !spec_is_whitespace(s[start]),
    ensures
        trim_start(s) == s.subrange(start, s.len() as int),
    decreases start,
{
    if start == 0 {
        assert(s.subrange(0, s.len() as int) =~= s);
    } else {
        let rest = s.drop_first();
        assert forall|j: int| 0 <= j < start - 1 implies spec_is_whitespace(#[trigger] rest[j]) by {
            assert(rest[j] == s[j + 1]);
        }
        if start - 1 < rest.len() {
            assert(rest[start - 1] == s[start]);
        }
        lemma_trim_start_at(rest, start - 1);
        assert(rest.subrange(start - 1, rest.len() as int) =~= s.subrange(start, s.len() as int));
    }
}

proof fn lemma_trim_end_at(s: Seq<char>, end: int)
    requires
        0 <= end <= s.len(),
        forall|j: int| end <= j < s.len() ==> spec_is_whitespace(#[trigger] s[j]),
        end == 0 || !spec_is_whitespace(s[end - 1]),
    ensures
        trim_end(s) == s.subrange(0, end),
    decreases s.len() - end,
{
    if end == s.len() {
        assert(s.subrange(0, end) =~= s);
        if s.len() > 0 {
            assert(s.last() == s[end - 1]);
        }
    } else {
        let rest = s.drop_last();
        assert(spec_is_whitespace(s[s.len() - 1]));
        assert forall|j: int| end <= j < rest.len() implies spec_is_whitespace(#[trigger] rest[j]) by {
            assert(rest[j] == s[j]);
        }
        if end > 0 {
            assert(rest[end - 1] == s[end - 1]);
        }
        lemma_trim_end_at(rest, end);
        assert(rest.subrange(0, end) =~= s.subrange(0, end));
    }
}

/// The bounds of the text left after trimming whitespace from both ends.
fn trim_bounds(s: &str) -> (bounds: (usize, usize))
    ensures
        bounds.0 <= bounds.1 <= s@.len(),
        trimmed(s@) == s@.subrange(bounds.0 as int, bounds.1 as int),
{
    let n = s.unicode_len();
    let mut start: usize = 0;
    while start < n && is_whitespace(s.get_char(start))
        invariant
            n == s@.len(),
            start <= n,
            forall|j: int| 0 <= j < start ==> spec_is_whitespace(#[trigger] s@[j]),
        decreases n - start,
    {
        start = start + 1;
    }
    proof {
        lemma_trim_start_at(s@, start as int);
    }
    let ghost rest = s@.subrange(start as int, n as int);
    let mut end: usize = n;
    while end > start && is_whitespace(s.get_char(end - 1))
        invariant
            n == s@.len(),
            start <= end <= n,
            rest == s@.subrange(start as int, n as int),
            forall|j: int| end <= j < n ==> spec_is_whitespace(#[trigger] s@[j]),
        decreases end,
    {
        end = end - 1;
    }
    proof {
        assert forall|j: int| end - start <= j < rest.len() implies spec_is_whitespace(
            #[trigger] rest[j],
        ) by {
            assert(rest[j] == s@[j + start]);
        }
        if end > start {
            assert(rest[end - start - 1] == s@[end - 1]);
        }
        lemma_trim_end_at(rest, end - start);
        assert(rest.subrange(0, end - start) =~= s@.subrange(start as int, end as int));
    }
    (start, end)
}

/// `s` without leading and trailing whitespace.
pub fn trim(s: &str) -> (t: &str)
    ensures
        t@ == trimmed(s@),
{
    let (start, end) = trim_bounds(s);
    s.substring_char(start, end)
}

/// Whether `s` holds nothing but whitespace.
pub fn is_blank(s: &str) -> (b: bool)
    ensures
        b == is_blank_text(s@),
{
    let (start, end) = trim_bounds(s);
    start == end
}

/// The trimmed text, or `None` where nothing but whitespace is left.
pub fn blank(value: &str) -> (text: Option<&str>)
    ensures
        match text {
            Some(t) => t@ == trimmed(value@) && t@.len() > 0,
            None => is_blank_text(value@),
        },
{
    let trimmed = trim(value);
    if trimmed.is_empty() {
        None
    } else {
        Some(trimmed)
    }
}

/// Whether two strings hold the same text.
pub fn same_str(a: &str, b: &str) -> (same: bool)
    ensures
        same == (a@ == b@),
{
    let n = a.unicode_len();
    if n != b.unicode_len() {
        return false;
    }
    let mut i: usize = 0;
    while i < n
        invariant
            n == a@.len(),
            n == b@.len(),
            i <= n,
            forall|j: int| 0 <= j < i ==> a@[j] == b@[j],
        decreases n - i,
    {
        if a.get_char(i) != b.get_char(i) {
            return false;
        }
        i = i + 1;
    }
    assert(a@ =~= b@);
    true
}

/// The decimal digits of `n`, most significant first.
pub open spec fn digits(n: nat) -> Seq<char>
    decreases n,
{
    if n < 10 {
        seq!["0123456789"@[n as int]]
    } else {
        digits(n / 10).push("0123456789"@[(n % 10) as int])
    }
}

/// `n` written in decimal, with a leading `-` when negative.
pub open spec fn decimal(n: int) -> Seq<char> {
    if n < 0 {
        seq!['-'] + digits((-n) as nat)
    } else {
        digits(n as nat)
    }
}

fn append_digits(m: u64, out: &mut String)
    ensures
        final(out)@ == old(out)@ + digits(m as nat),
    decreases m,
{
    let ghost before = out@;
    let table = "0123456789";
    proof {
        reveal_strlit("0123456789");
    }
    if m >= 10 {
        append_digits(m / 10, out);
    }
    let d = (m % 10) as usize;
    out.append(table.substring_char(d, d + 1));
    proof {
        assert(table@.subrange(d as int, d + 1) =~= seq![table@[d as int]]);
        if m >= 10 {
            assert(out@ =~= before + digits(m as nat / 10).push(table@[d as int]));
        } else {
            assert(out@ =~= before + seq![table@[d as int]]);
        }
    }
}

/// `n` in decimal.
pub fn decimal_text(n: i64) -> (s: String)
    ensures
        s@ == decimal(n as int),
{
    let mut out = String::new();
    if n < 0 {
        out.append("-");
        proof {
            reveal_strlit("-");
        }
        let m: u64 = (-(n as i128)) as u64;
        append_digits(m, &mut out);
        assert(out@ =~= seq!['-'] + digits(m as nat));
    } else {
        append_digits(n as u64, &mut out);
        assert(out@ =~= digits(n as nat));
    }
    out
}

/// `n` in decimal, for an unsigned count.
pub fn digits_text(n: u64) -> (s: String)
    ensures
        s@ == digits(n as nat),
{
    let mut out = String::new();
    append_digits(n, &mut out);
    assert(out@ =~= digits(n as nat));
    out
}

proof fn lemma_digits_shape(n: nat)
    ensures
        digits(n).len() >= 1,
        n >= 10 ==> digits(n).len() >= 2,
        digits(n).last() == "0123456789"@[(n % 10) as int],
        n >= 10 ==> digits(n).drop_last() == digits(n / 10),
    decreases n,
{
    if n >= 10 {
        lemma_digits_shape(n / 10);
        assert(digits(n).drop_last() =~= digits(n / 10));
    }
}

/// Different numbers are written with different digits.
pub proof fn digits_are_unique(a: nat, b: nat)
    requires
        digits(a) == digits(b),
    ensures
        a == b,
    decreases a,
{
    reveal_strlit("0123456789");
    lemma_digits_shape(a);
    lemma_digits_shape(b);
    let table = "0123456789"@;
    assert(table[(a % 10) as int] == table[(b % 10) as int]);
    assert(a % 10 == b % 10);
    if a >= 10 && b >= 10 {
        digits_are_unique(a / 10, b / 10);
    }
}

} // verus!
