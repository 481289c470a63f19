use vstd::prelude::*;

use crate::queue_adapters::{EnqueuedJob, JobView, RetryCount};
use crate::text::{append_char, append_decimal, chars_of, decimal, digit_char};

verus! {

/// The lower-case hexadecimal digit for `d`.
pub open spec fn hex_digit(d: nat) -> char {
    if d < 10 {
        digit_char(d)
    } else if d == 10 {
        'a'
    } else if d == 11 {
        'b'
    } else if d == 12 {
        'c'
    } else if d == 13 {
        'd'
    } else if d == 14 {
        'e'
    } else {
        'f'
    }
}

/// How a character is written inside a quoted string: quotes, backslashes and control
/// characters are escaped, everything else stands for itself.
pub open spec fn escape_char(c: char) -> Seq<char> {
    if c == '"' {
        seq!['\\', '"']
    } else if c == '\\' {
        seq!['\\', '\\']
    } else if c == '\u{8}' {
        seq!['\\', 'b']
    } else if c == '\u{c}' {
        seq!['\\', 'f']
    } else if c == '\n' {
        seq!['\\', 'n']
    } else if c == '\r' {
        seq!['\\', 'r']
    } else if c == '\t' {
        seq!['\\', 't']
    } else if (c as u32) < 0x20 {
        seq!['\\', 'u', '0', '0', hex_digit((c as u32 / 16) as nat), hex_digit((c as u32 % 16) as nat)]
    } else {
        seq![c]
    }
}

/// The characters of `s`, each escaped.
pub open spec fn escape(s: Seq<char>) -> Seq<char>
    decreases s.len(),
{
    if s.len() == 0 {
        Seq::empty()
    } else {
        escape_char(s[0]) + escape(s.drop_first())
    }
}

/// `s` as a quoted string.
pub open spec fn quoted(s: Seq<char>) -> Seq<char> {
    seq!['"'] + escape(s) + seq!['"']
}

/// How an attempt count is written: `"Fresh"`, or `{"Attempted":n}`.
pub open spec fn attempts_text(count: RetryCount) -> Seq<char> {
    match count {
        RetryCount::NeverRetried => seq!['"', 'F', 'r', 'e', 's', 'h', '"'],
        RetryCount::Count(n) => seq!['{', '"', 'A', 't', 't', 'e', 'm', 'p', 't', 'e', 'd', '"', ':']
            + decimal(n as nat) + seq!['}'],
    }
}

/// The text before the name.
pub open spec fn name_key() -> Seq<char> {
    seq!['{', '"', 'n', 'a', 'm', 'e', '"', ':']
}

/// The text between the name and the arguments.
pub open spec fn args_key() -> Seq<char> {
    seq![',', '"', 'a', 'r', 'g', 's', '"', ':']
}

/// The text between the arguments and the attempt count.
pub open spec fn attempts_key() -> Seq<char> {
    seq![',', '"', 'a', 't', 't', 'e', 'm', 'p', 't', 's', '"', ':']
}

/// The wire form of an enqueued job:
/// `{"name":<quoted name>,"args":<quoted arguments>,"attempts":<count>}`.
pub open spec fn wire(job: JobView) -> Seq<char> {
    name_key() + quoted(job.0) + args_key() + quoted(job.1) + attempts_key() + attempts_text(
        job.2,
    ) + seq!['}']
}

proof fn lemma_escape_push(s: Seq<char>, c: char)
    ensures
        escape(s.push(c)) == escape(s) + escape_char(c),
    decreases s.len(),
{
    if s.len() == 0 {
        assert(s.push(c).drop_first() =~= Seq::<char>::empty());
        assert(s.push(c)[0] == c);
        assert(escape(Seq::<char>::empty()) == Seq::<char>::empty());
        assert(escape(s) == Seq::<char>::empty());
        assert(escape(s.push(c)) =~= escape_char(c) + Seq::<char>::empty());
        assert(escape(s.push(c)) =~= escape(s) + escape_char(c));
    } else {
        assert(s.push(c).drop_first() =~= s.drop_first().push(c));
        lemma_escape_push(s.drop_first(), c);
        assert(escape(s.push(c)) =~= escape(s) + escape_char(c));
    }
}

fn hex(d: u32) -> (c: char)
    requires
        d < 16,
    ensures
        c == hex_digit(d as nat),
{
    if d == 0 {
        '0'
    } else if d == 1 {
        '1'
    } else if d == 2 {
        '2'
    } else if d == 3 {
        '3'
    } else if d == 4 {
        '4'
    } else if d == 5 {
        '5'
    } else if d == 6 {
        '6'
    } else if d == 7 {
        '7'
    } else if d == 8 {
        '8'
    } else if d == 9 {
        '9'
    } else if d == 10 {
        'a'
    } else if d == 11 {
        'b'
    } else if d == 12 {
        'c'
    } else if d == 13 {
        'd'
    } else if d == 14 {
        'e'
    } else {
        'f'
    }
}

pub(crate) fn append_chars(out: &mut String, cs: &[char])
    ensures
        final(out)@ == old(out)@ + cs@,
{
    let mut i: usize = 0;
    while i < cs.len()
        invariant
            i <= cs@.len(),
            out@ == old(out)@ + cs@.take(i as int),
        decreases cs@.len() - i,
    {
        append_char(out, cs[i]);
        assert(cs@.take(i + 1) =~= cs@.take(i as int).push(cs@[i as int]));
        i = i + 1;
    }
    assert(cs@.take(cs@.len() as int) =~= cs@);
}

fn append_escaped_char(out: &mut String, c: char)
    ensures
        final(out)@ == old(out)@ + escape_char(c),
{
    if c == '"' {
        append_chars(out, &['\\', '"']);
    } else if c == '\\' {
        append_chars(out, &['\\', '\\']);
    } else if c == '\u{8}' {
        append_chars(out, &['\\', 'b']);
    } else if c == '\u{c}' {
        append_chars(out, &['\\', 'f']);
    } else if c == '\n' {
        append_chars(out, &['\\', 'n']);
    } else if c == '\r' {
        append_chars(out, &['\\', 'r']);
    } else if c == '\t' {
        append_chars(out, &['\\', 't']);
    } else if (c as u32) < 0x20 {
        let v = c as u32;
        append_chars(out, &['\\', 'u', '0', '0', hex(v / 16), hex(v % 16)]);
    } else {
        append_char(out, c);
    }
    assert(final(out)@ =~= old(out)@ + escape_char(c));
}

pub(crate) fn append_quoted(out: &mut String, s: &str)
    ensures
        final(out)@ == old(out)@ + quoted(s@),
{
    let cs = chars_of(s);
    append_char(out, '"');
    let ghost start = out@;
    let mut i: usize = 0;
    while i < cs.len()
        invariant
            i <= cs@.len(),
            cs@ == s@,
            out@ == start + escape(cs@.take(i as int)),
        decreases cs@.len() - i,
    {
        append_escaped_char(out, cs[i]);
        proof {
            lemma_escape_push(cs@.take(i as int), cs@[i as int]);
            assert(cs@.take(i + 1) =~= cs@.take(i as int).push(cs@[i as int]));
        }
        i = i + 1;
    }
    assert(cs@.take(cs@.len() as int) =~= cs@);
    append_char(out, '"');
    assert(out@ =~= old(out)@ + quoted(s@));
}

/// The wire form of `job`.
pub fn to_wire(job: &EnqueuedJob) -> (r: String)
    ensures
        r@ == wire(job@),
{
    let mut out = String::new();
    append_chars(&mut out, &['{', '"', 'n', 'a', 'm', 'e', '"', ':']);
    append_quoted(&mut out, job.name.as_str());
    append_chars(&mut out, &[',', '"', 'a', 'r', 'g', 's', '"', ':']);
    append_quoted(&mut out, job.args.as_str());
    append_chars(&mut out, &[',', '"', 'a', 't', 't', 'e', 'm', 'p', 't', 's', '"', ':']);
    match job.retry_count {
        RetryCount::NeverRetried => {
            append_chars(&mut out, &['"', 'F', 'r', 'e', 's', 'h', '"']);
        },
        RetryCount::Count(n) => {
            append_chars(&mut out, &['{', '"', 'A', 't', 't', 'e', 'm', 'p', 't', 'e', 'd', '"', ':']);
            append_decimal(&mut out, n as u64);
            append_char(&mut out, '}');
        },
    }
    append_char(&mut out, '}');
    assert(out@ =~= wire(job@));
    out
}

} // verus!

verus! {

proof fn lemma_hex_digit_inverse(d: nat)
    requires
        d < 16,
    ensures
        hex_value_spec(hex_digit(d)) == Some(d),
{
}

/// The value of a lower-case hexadecimal digit.
pub open spec fn hex_value_spec(c: char) -> Option<nat> {
    if '0' <= c && c <= '9' {
        Some((c as u32 - '0' as u32) as nat)
    } else if 'a' <= c && c <= 'f' {
        Some((c as u32 - 'a' as u32 + 10) as nat)
    } else {
        None
    }
}

fn hex_value(c: char) -> (r: Option<u32>)
    ensures
        r matches Some(v) ==> hex_value_spec(c) == Some(v as nat) && v < 16,
        r is None ==> hex_value_spec(c) is None,
{
    if '0' <= c && c <= '9' {
        Some(c as u32 - '0' as u32)
    } else if 'a' <= c && c <= 'f' {
        Some(c as u32 - 'a' as u32 + 10)
    } else {
        None
    }
}

proof fn lemma_escape_char_shape(ch: char)
    ensures
        escape_char(ch).len() >= 1,
        escape_char(ch)[0] != '"',
        escape_char(ch)[0] != '\\' ==> escape_char(ch) == seq![ch],
        escape_char(ch)[0] == '\\' ==> escape_char(ch).len() >= 2,
{
}

/// `p` stands in `cs` at `i`.
pub open spec fn occurs_at(cs: Seq<char>, i: int, p: Seq<char>) -> bool {
    0 <= i && i + p.len() <= cs.len() && cs.subrange(i, i + p.len()) == p
}

/// Decode the character written at `i` by `escape_char`. Returns it and the number of
/// characters it took.
fn decode_char(cs: &Vec<char>, i: usize, Ghost(ch): Ghost<char>) -> (r: Option<(char, usize)>)
    requires
        i < cs@.len(),
    ensures
        occurs_at(cs@, i as int, escape_char(ch)) ==> r == Some((ch, escape_char(ch).len() as usize)),
        r matches Some((_, n)) ==> 1 <= n && i + n <= cs@.len(),
{
    let ghost p = escape_char(ch);
    let ghost hyp = occurs_at(cs@, i as int, p);
    proof {
        if hyp {
            assert forall|j: int| 0 <= j < p.len() implies cs@[i + j] == p[j] by {
                assert(cs@.subrange(i as int, i + p.len())[j] == cs@[i + j]);
            }
        }
    }
    proof {
        lemma_escape_char_shape(ch);
    }
    let c = cs[i];
    if c != '\\' {
        proof {
            if hyp {
                assert(cs@[i as int] == p[0]);
                assert(p == seq![ch]);
            }
        }
        return Some((c, 1));
    }
    if cs.len() - i < 2 {
        return None;
    }
    let e = cs[i + 1];
    if e == '"' {
        Some(('"', 2))
    } else if e == '\\' {
        Some(('\\', 2))
    } else if e == '/' {
        Some(('/', 2))
    } else if e == 'b' {
        Some(('\u{8}', 2))
    } else if e == 'f' {
        Some(('\u{c}', 2))
    } else if e == 'n' {
        Some(('\n', 2))
    } else if e == 'r' {
        Some(('\r', 2))
    } else if e == 't' {
        Some(('\t', 2))
    } else if e == 'u' {
        if cs.len() - i < 6 || cs[i + 2] != '0' || cs[i + 3] != '0' {
            return None;
        }
        let hi = hex_value(cs[i + 4]);
        let lo = hex_value(cs[i + 5]);
        match (hi, lo) {
            (Some(h), Some(l)) => {
                let v = h * 16 + l;
                let d = (v as u8) as char;
                proof {
                    if hyp {
                        let x = ch as u32;
                        lemma_hex_digit_inverse((x / 16) as nat);
                        lemma_hex_digit_inverse((x % 16) as nat);
                        assert(v == x);
                    }
                }
                Some((d, 6))
            },
            _ => {
                proof {
                    if hyp {
                        let x = ch as u32;
                        lemma_hex_digit_inverse((x / 16) as nat);
                        lemma_hex_digit_inverse((x % 16) as nat);
                    }
                }
                None
            },
        }
    } else {
        None
    }
}

} // verus!

verus! {

proof fn lemma_split(cs: Seq<char>, i: int, p: Seq<char>, x: Seq<char>)
    requires
        0 <= i <= cs.len(),
        cs.subrange(i, cs.len() as int) == p + x,
    ensures
        occurs_at(cs, i, p),
        cs.subrange(i + p.len(), cs.len() as int) == x,
{
    assert(cs.subrange(i, cs.len() as int).len() == cs.len() - i);
    assert((p + x).len() == p.len() + x.len());
    assert(i + p.len() <= cs.len());
    assert(cs.subrange(i, i + p.len()) =~= (p + x).subrange(0, p.len() as int));
    assert((p + x).subrange(0, p.len() as int) =~= p);
    assert(cs.subrange(i + p.len(), cs.len() as int) =~= (p + x).subrange(
        p.len() as int,
        (p + x).len() as int,
    ));
}

proof fn lemma_escape_step(s: Seq<char>, k: int)
    requires
        0 <= k < s.len(),
    ensures
        escape(s.skip(k)) == escape_char(s[k]) + escape(s.skip(k + 1)),
{
    assert(s.skip(k).drop_first() =~= s.skip(k + 1));
    assert(s.skip(k)[0] == s[k]);
}

/// Parse the quoted string that starts at `pos`. Returns the string and the position after
/// its closing quote.
fn parse_quoted(cs: &Vec<char>, pos: usize, Ghost(s): Ghost<Seq<char>>, Ghost(rest): Ghost<Seq<char>>) -> (r: Option<(String, usize)>)
    requires
        pos <= cs@.len(),
    ensures
        cs@.subrange(pos as int, cs@.len() as int) == quoted(s) + rest ==> (r matches Some((v, p))
            && v@ == s && p == pos + quoted(s).len()),
        r matches Some((_, p)) ==> p <= cs@.len(),
{
    let ghost len = cs@.len() as int;
    let ghost hyp = cs@.subrange(pos as int, len) == quoted(s) + rest;
    if pos >= cs.len() {
        proof {
            if hyp {
                assert((quoted(s) + rest).len() >= 1);
            }
        }
        return None;
    }
    if cs[pos] != '"' {
        proof {
            if hyp {
                assert(cs@.subrange(pos as int, len)[0] == cs@[pos as int]);
                assert((quoted(s) + rest)[0] == '"');
            }
        }
        return None;
    }
    let mut out = String::new();
    let mut i: usize = pos + 1;
    let ghost mut k: int = 0;
    proof {
        if hyp {
            assert(quoted(s) + rest =~= seq!['"'] + (escape(s) + seq!['"'] + rest));
            lemma_split(cs@, pos as int, seq!['"'], escape(s) + seq!['"'] + rest);
            assert(s.skip(0) =~= s);
            assert(out@ =~= s.take(0));
        }
    }
    loop
        invariant
            pos < i <= len,
            len == cs@.len(),
            hyp == (cs@.subrange(pos as int, len) == quoted(s) + rest),
            hyp ==> {
                &&& 0 <= k <= s.len()
                &&& cs@.subrange(i as int, len) == escape(s.skip(k)) + seq!['"'] + rest
                &&& out@ == s.take(k)
                &&& i - pos == 1 + escape(s.take(k)).len()
            },
        decreases len - i,
    {
        if i >= cs.len() {
            proof {
                if hyp {
                    assert((escape(s.skip(k)) + seq!['"'] + rest).len() >= 1);
                }
            }
            return None;
        }
        let c = cs[i];
        if c == '"' {
            proof {
                if hyp {
                    if k < s.len() {
                        lemma_escape_step(s, k);
                        lemma_escape_char_shape(s[k]);
                        assert(cs@.subrange(i as int, len)[0] == c);
                        assert((escape_char(s[k]) + escape(s.skip(k + 1)) + seq!['"'] + rest)[0]
                            == escape_char(s[k])[0]);
                    }
                    assert(s.take(k) =~= s);
                }
            }
            return Some((out, i + 1));
        }
        let ghost ch = if hyp && k < s.len() { s[k] } else { ' ' };
        proof {
            if hyp {
                if k == s.len() {
                    assert(s.skip(k) =~= Seq::<char>::empty());
                    assert(cs@.subrange(i as int, len)[0] == c);
                    assert((escape(s.skip(k)) + seq!['"'] + rest)[0] == '"');
                }
                lemma_escape_step(s, k);
                assert(escape(s.skip(k)) + seq!['"'] + rest =~= escape_char(ch) + (escape(
                    s.skip(k + 1),
                ) + seq!['"'] + rest));
                lemma_split(cs@, i as int, escape_char(ch), escape(s.skip(k + 1)) + seq!['"']
                    + rest);
            }
        }
        match decode_char(cs, i, Ghost(ch)) {
            Some((d, n)) => {
                append_char(&mut out, d);
                proof {
                    if hyp {
                        assert(s.take(k + 1) =~= s.take(k).push(ch));
                        lemma_escape_push(s.take(k), ch);
                        assert(s.take(k).push(ch) =~= s.take(k + 1));
                        k = k + 1;
                    }
                }
                i = i + n;
            },
            None => {
                return None;
            },
        }
    }
}

} // verus!

verus! {

/// Whether `c` is a decimal digit.
pub open spec fn is_digit(c: char) -> bool {
    '0' <= c && c <= '9'
}

/// The number that the decimal digits `ds` stand for.
pub open spec fn digits_value(ds: Seq<char>) -> nat
    decreases ds.len(),
{
    if ds.len() == 0 {
        0
    } else {
        digits_value(ds.drop_last()) * 10 + (ds.last() as u32 - '0' as u32) as nat
    }
}

proof fn lemma_digit_char(m: nat)
    requires
        m < 10,
    ensures
        (digit_char(m) as u32 - '0' as u32) as nat == m,
        is_digit(digit_char(m)),
{
}

proof fn lemma_decimal(n: nat)
    ensures
        decimal(n).len() >= 1,
        forall|j: int| 0 <= j < decimal(n).len() ==> is_digit(#[trigger] decimal(n)[j]),
        digits_value(decimal(n)) == n,
    decreases n,
{
    if n < 10 {
        lemma_digit_char(n);
        assert(decimal(n).drop_last() =~= Seq::<char>::empty());
        assert(decimal(n).last() == digit_char(n));
        assert(digits_value(Seq::<char>::empty()) == 0);
        assert(digits_value(decimal(n)) == digits_value(decimal(n).drop_last()) * 10 + n);
    } else {
        lemma_decimal(n / 10);
        lemma_digit_char(n % 10);
        assert(decimal(n).drop_last() =~= decimal(n / 10));
        assert(decimal(n).last() == digit_char(n % 10));
        vstd::arithmetic::div_mod::lemma_fundamental_div_mod(n as int, 10);
        assert(digits_value(decimal(n)) == (n / 10) * 10 + n % 10);
        assert forall|j: int| 0 <= j < decimal(n).len() implies is_digit(
            #[trigger] decimal(n)[j],
        ) by {
            if j < decimal(n).len() - 1 {
                assert(decimal(n)[j] == decimal(n / 10)[j]);
            }
        }
    }
}

/// `v`, or one past the largest `u32` when it is larger.
pub open spec fn capped(v: nat) -> nat {
    if v > u32::MAX {
        u32::MAX as nat + 1
    } else {
        v
    }
}

/// Parse the decimal number that starts at `pos` and is followed by `}`. Returns it and the
/// position of the `}`.
fn parse_count(cs: &Vec<char>, pos: usize, Ghost(n): Ghost<nat>, Ghost(rest): Ghost<Seq<char>>) -> (r: Option<(u32, usize)>)
    requires
        pos <= cs@.len(),
    ensures
        n <= u32::MAX && cs@.subrange(pos as int, cs@.len() as int) == decimal(n) + seq!['}']
            + rest ==> r == Some((n as u32, (pos + decimal(n).len()) as usize)),
        r matches Some((_, p)) ==> p <= cs@.len(),
{
    let ghost len = cs@.len() as int;
    let ghost d = decimal(n);
    let ghost hyp = n <= u32::MAX && cs@.subrange(pos as int, len) == d + seq!['}'] + rest;
    proof {
        lemma_decimal(n);
        if hyp {
            assert(d + seq!['}'] + rest =~= d + (seq!['}'] + rest));
            lemma_split(cs@, pos as int, d, seq!['}'] + rest);
            assert forall|j: int| 0 <= j < d.len() implies cs@[pos + j] == d[j] by {
                assert(cs@.subrange(pos as int, pos + d.len())[j] == cs@[pos + j]);
            }
            assert(cs@.subrange(pos + d.len(), len)[0] == cs@[pos + d.len()]);
            assert((seq!['}'] + rest)[0] == '}');
        }
        assert(cs@.subrange(pos as int, pos as int) =~= Seq::<char>::empty());
    }
    let mut i: usize = pos;
    let mut acc: u64 = 0;
    while i < cs.len() && '0' <= cs[i] && cs[i] <= '9'
        invariant
            pos <= i <= len,
            len == cs@.len(),
            acc == capped(digits_value(cs@.subrange(pos as int, i as int))),
            hyp ==> i - pos <= d.len(),
            hyp ==> forall|j: int| 0 <= j < d.len() ==> cs@[pos + j] == d[j],
            hyp ==> cs@[pos + d.len()] == '}',
            hyp ==> pos + d.len() < len,
        decreases len - i,
    {
        let c = cs[i];
        let ghost prev = cs@.subrange(pos as int, i as int);
        proof {
            assert(cs@.subrange(pos as int, i + 1).drop_last() =~= prev);
            assert(cs@.subrange(pos as int, i + 1).last() == c);
        }
        if acc <= u32::MAX as u64 {
            let v = acc * 10 + (c as u32 - '0' as u32) as u64;
            acc = if v > u32::MAX as u64 {
                u32::MAX as u64 + 1
            } else {
                v
            };
        }
        i = i + 1;
    }
    proof {
        if hyp {
            if i - pos < d.len() {
                assert(is_digit(d[i - pos]));
            }
            assert(cs@.subrange(pos as int, i as int) =~= d);
        }
    }
    if i == pos || acc > u32::MAX as u64 {
        return None;
    }
    Some((acc as u32, i))
}

/// Whether the characters `lit` stand in `cs` at `pos`.
fn expect(cs: &Vec<char>, pos: usize, lit: &[char]) -> (r: Option<usize>)
    requires
        pos <= cs@.len(),
    ensures
        occurs_at(cs@, pos as int, lit@) <==> r is Some,
        r matches Some(p) ==> p == pos + lit@.len() && p <= cs@.len(),
{
    let total = cs.len();
    if total - pos < lit.len() {
        return None;
    }
    let mut j: usize = 0;
    while j < lit.len()
        invariant
            j <= lit@.len(),
            total == cs@.len(),
            pos + lit@.len() <= cs@.len(),
            forall|k: int| 0 <= k < j ==> cs@[pos + k] == lit@[k],
        decreases lit@.len() - j,
    {
        if cs[pos + j] != lit[j] {
            proof {
                if occurs_at(cs@, pos as int, lit@) {
                    assert(cs@.subrange(pos as int, pos + lit@.len())[j as int] == cs@[pos + j]);
                }
            }
            return None;
        }
        j = j + 1;
    }
    assert(cs@.subrange(pos as int, pos + lit@.len()) =~= lit@);
    Some(pos + lit.len())
}

} // verus!

verus! {

/// What follows the quoted name in the wire form of `job`.
pub open spec fn after_name(job: JobView) -> Seq<char> {
    args_key() + quoted(job.1) + attempts_key() + attempts_text(job.2) + seq!['}']
}

/// What follows the quoted arguments in the wire form of `job`.
pub open spec fn after_args(job: JobView) -> Seq<char> {
    attempts_key() + attempts_text(job.2) + seq!['}']
}

proof fn lemma_after_prefix(cs: Seq<char>, pos: int, p: Seq<char>, x: Seq<char>)
    requires
        0 <= pos <= cs.len(),
        cs.subrange(pos, cs.len() as int) == p + x,
    ensures
        pos + p.len() <= cs.len(),
        cs.subrange(pos + p.len(), cs.len() as int) == x,
{
    lemma_split(cs, pos, p, x);
}

/// Parse an attempt count followed by the closing `}` of the job.
fn parse_attempts(cs: &Vec<char>, pos: usize, Ghost(c): Ghost<RetryCount>) -> (r: Option<
    (RetryCount, usize),
>)
    requires
        pos <= cs@.len(),
    ensures
        cs@.subrange(pos as int, cs@.len() as int) == attempts_text(c) + seq!['}'] ==> r == Some(
            (c, (pos + attempts_text(c).len()) as usize),
        ),
        r matches Some((_, p)) ==> p <= cs@.len(),
{
    let ghost len = cs@.len() as int;
    let ghost hyp = cs@.subrange(pos as int, len) == attempts_text(c) + seq!['}'];
    if pos >= cs.len() {
        proof {
            if hyp {
                assert((attempts_text(c) + seq!['}']).len() >= 1);
            }
        }
        return None;
    }
    let fresh = ['"', 'F', 'r', 'e', 's', 'h', '"'];
    let head = ['{', '"', 'A', 't', 't', 'e', 'm', 'p', 't', 'e', 'd', '"', ':'];
    let close = ['}'];
    proof {
        if hyp {
            assert(cs@.subrange(pos as int, len)[0] == cs@[pos as int]);
            assert((attempts_text(c) + seq!['}'])[0] == attempts_text(c)[0]);
        }
    }
    if cs[pos] == '"' {
        proof {
            if hyp {
                assert(c is NeverRetried);
                assert(fresh@ =~= attempts_text(c));
                lemma_split(cs@, pos as int, fresh@, seq!['}']);
            }
        }
        let p = expect(cs, pos, &fresh)?;
        return Some((RetryCount::NeverRetried, p));
    }
    let ghost m: nat = match c {
        RetryCount::Count(n) => n as nat,
        RetryCount::NeverRetried => 0,
    };
    let ghost closing = seq!['}'];
    proof {
        if hyp {
            assert(c is Count);
            assert(attempts_text(c) + seq!['}'] =~= head@ + (decimal(m) + seq!['}'] + closing));
            lemma_split(cs@, pos as int, head@, decimal(m) + seq!['}'] + closing);
        }
    }
    let q = expect(cs, pos, &head)?;
    let (n, q2) = parse_count(cs, q, Ghost(m), Ghost(closing))?;
    proof {
        if hyp {
            assert(decimal(m) + seq!['}'] + closing =~= decimal(m) + (seq!['}'] + closing));
            lemma_after_prefix(cs@, q as int, decimal(m), seq!['}'] + closing);
            assert(close@ =~= seq!['}']);
            lemma_split(cs@, q2 as int, close@, closing);
        }
    }
    let q3 = expect(cs, q2, &close)?;
    Some((RetryCount::Count(n), q3))
}

/// Parse the fields of a job written in its wire form.
fn parse_fields(cs: &Vec<char>, Ghost(e): Ghost<JobView>) -> (r: Option<EnqueuedJob>)
    ensures
        cs@ == wire(e) ==> (r matches Some(j) && j@ == e),
{
    let ghost len = cs@.len() as int;
    let ghost hyp = cs@ == wire(e);
    let name_lit = ['{', '"', 'n', 'a', 'm', 'e', '"', ':'];
    let args_lit = [',', '"', 'a', 'r', 'g', 's', '"', ':'];
    let attempts_lit = [',', '"', 'a', 't', 't', 'e', 'm', 'p', 't', 's', '"', ':'];
    let close = ['}'];
    assert(name_lit@ =~= name_key());
    assert(args_lit@ =~= args_key());
    assert(attempts_lit@ =~= attempts_key());
    proof {
        if hyp {
            assert(cs@.subrange(0, len) =~= cs@);
            assert(wire(e) =~= name_key() + (quoted(e.0) + after_name(e)));
            lemma_split(cs@, 0, name_key(), quoted(e.0) + after_name(e));
        }
    }
    let p0 = expect(cs, 0, &name_lit)?;
    let (name, p1) = parse_quoted(cs, p0, Ghost(e.0), Ghost(after_name(e)))?;
    proof {
        if hyp {
            lemma_after_prefix(cs@, p0 as int, quoted(e.0), after_name(e));
            assert(after_name(e) =~= args_key() + (quoted(e.1) + after_args(e)));
            lemma_split(cs@, p1 as int, args_key(), quoted(e.1) + after_args(e));
        }
    }
    let p2 = expect(cs, p1, &args_lit)?;
    let (args, p3) = parse_quoted(cs, p2, Ghost(e.1), Ghost(after_args(e)))?;
    proof {
        if hyp {
            lemma_after_prefix(cs@, p1 as int, args_key(), quoted(e.1) + after_args(e));
            lemma_after_prefix(cs@, p2 as int, quoted(e.1), after_args(e));
            assert(after_args(e) =~= attempts_key() + (attempts_text(e.2) + seq!['}']));
            lemma_split(cs@, p3 as int, attempts_key(), attempts_text(e.2) + seq!['}']);
        }
    }
    let p4 = expect(cs, p3, &attempts_lit)?;
    proof {
        if hyp {
            lemma_after_prefix(cs@, p3 as int, attempts_key(), attempts_text(e.2) + seq!['}']);
        }
    }
    let (retry_count, _) = parse_attempts(cs, p4, Ghost(e.2))?;
    Some(EnqueuedJob { name, args, retry_count })
}

/// Read a job from exactly the texts that `to_wire` writes.
fn from_canonical_wire(text: &str) -> (r: Option<EnqueuedJob>)
    ensures
        r matches Some(j) ==> wire(j@) == text@,
        (exists|e: JobView| wire(e) == text@) ==> r is Some,
{
    let cs = chars_of(text);
    let ghost e = choose|e: JobView| wire(e) == text@;
    let job = parse_fields(&cs, Ghost(e))?;
    let back = to_wire(&job);
    let original = text.to_string();
    if back == original {
        Some(job)
    } else {
        None
    }
}

} // verus!

verus! {

proof fn lemma_cancel(p: Seq<char>, x: Seq<char>, y: Seq<char>)
    requires
        p + x == p + y,
    ensures
        x == y,
{
    assert(x =~= (p + x).subrange(p.len() as int, (p + x).len() as int));
    assert(y =~= (p + y).subrange(p.len() as int, (p + y).len() as int));
}

proof fn lemma_hex_digit_injective(a: nat, b: nat)
    requires
        a < 16,
        b < 16,
        hex_digit(a) == hex_digit(b),
    ensures
        a == b,
{
    lemma_hex_digit_inverse(a);
    lemma_hex_digit_inverse(b);
}

proof fn lemma_escape_char_unique(c1: char, c2: char, x1: Seq<char>, x2: Seq<char>)
    requires
        escape_char(c1) + x1 == escape_char(c2) + x2,
    ensures
        c1 == c2,
        x1 == x2,
{
    let p1 = escape_char(c1);
    let p2 = escape_char(c2);
    let s = p1 + x1;
    lemma_escape_char_shape(c1);
    lemma_escape_char_shape(c2);
    assert(s[0] == p1[0]);
    assert((p2 + x2)[0] == p2[0]);
    if p1[0] == '\\' {
        assert(s[1] == p1[1]);
        assert((p2 + x2)[1] == p2[1]);
        if p1[1] == 'u' {
            assert(p2[1] == 'u');
            assert(p1.len() == 6 && p2.len() == 6);
            assert(s[4] == p1[4] && s[5] == p1[5]);
            assert((p2 + x2)[4] == p2[4] && (p2 + x2)[5] == p2[5]);
            let v1 = c1 as u32;
            let v2 = c2 as u32;
            lemma_hex_digit_injective((v1 / 16) as nat, (v2 / 16) as nat);
            lemma_hex_digit_injective((v1 % 16) as nat, (v2 % 16) as nat);
            assert(v1 == v2);
        }
    }
    assert(c1 == c2);
    lemma_cancel(p1, x1, x2);
}

proof fn lemma_escape_unique(a: Seq<char>, b: Seq<char>, r1: Seq<char>, r2: Seq<char>)
    requires
        escape(a) + seq!['"'] + r1 == escape(b) + seq!['"'] + r2,
    ensures
        a == b,
        r1 == r2,
    decreases a.len(),
{
    let s = escape(a) + seq!['"'] + r1;
    if a.len() == 0 {
        if b.len() > 0 {
            lemma_escape_char_shape(b[0]);
            assert(s[0] == '"');
            assert((escape(b) + seq!['"'] + r2)[0] == escape_char(b[0])[0]);
        }
        assert(seq!['"'] + r1 =~= s);
        assert(seq!['"'] + r2 =~= escape(b) + seq!['"'] + r2);
        lemma_cancel(seq!['"'], r1, r2);
        assert(a =~= b);
    } else {
        if b.len() == 0 {
            lemma_escape_char_shape(a[0]);
            assert(s[0] == escape_char(a[0])[0]);
            assert((escape(b) + seq!['"'] + r2)[0] == '"');
        }
        let a1 = a.drop_first();
        let b1 = b.drop_first();
        assert(s =~= escape_char(a[0]) + (escape(a1) + seq!['"'] + r1));
        assert(escape(b) + seq!['"'] + r2 =~= escape_char(b[0]) + (escape(b1) + seq!['"'] + r2));
        lemma_escape_char_unique(a[0], b[0], escape(a1) + seq!['"'] + r1, escape(b1) + seq!['"']
            + r2);
        lemma_escape_unique(a1, b1, r1, r2);
        assert(a =~= seq![a[0]] + a1);
        assert(b =~= seq![b[0]] + b1);
    }
}

proof fn lemma_attempts_unique(c1: RetryCount, c2: RetryCount)
    requires
        attempts_text(c1) == attempts_text(c2),
    ensures
        c1 == c2,
{
    let t = attempts_text(c1);
    let head = seq!['{', '"', 'A', 't', 't', 'e', 'm', 'p', 't', 'e', 'd', '"', ':'];
    match (c1, c2) {
        (RetryCount::Count(n1), RetryCount::Count(n2)) => {
            assert(t =~= head + (decimal(n1 as nat) + seq!['}']));
            assert(attempts_text(c2) =~= head + (decimal(n2 as nat) + seq!['}']));
            lemma_cancel(head, decimal(n1 as nat) + seq!['}'], decimal(n2 as nat) + seq!['}']);
            assert(decimal(n1 as nat) =~= (decimal(n1 as nat) + seq!['}']).drop_last());
            assert(decimal(n2 as nat) =~= (decimal(n2 as nat) + seq!['}']).drop_last());
            lemma_decimal(n1 as nat);
            lemma_decimal(n2 as nat);
        },
        (RetryCount::Count(_), RetryCount::NeverRetried) => {
            assert(t[0] == '{');
            assert(attempts_text(c2)[0] == '"');
        },
        (RetryCount::NeverRetried, RetryCount::Count(_)) => {
            assert(t[0] == '"');
            assert(attempts_text(c2)[0] == '{');
        },
        _ => {},
    }
}

proof fn lemma_field_unique(
    key: Seq<char>,
    a: Seq<char>,
    b: Seq<char>,
    ra: Seq<char>,
    rb: Seq<char>,
)
    requires
        key + (seq!['"'] + (escape(a) + seq!['"'] + ra)) == key + (seq!['"'] + (escape(b)
            + seq!['"'] + rb)),
    ensures
        a == b,
        ra == rb,
{
    lemma_cancel(key, seq!['"'] + (escape(a) + seq!['"'] + ra), seq!['"'] + (escape(b) + seq![
        '"',
    ] + rb));
    lemma_cancel(seq!['"'], escape(a) + seq!['"'] + ra, escape(b) + seq!['"'] + rb);
    lemma_escape_unique(a, b, ra, rb);
}

proof fn lemma_wire_shape(e: JobView)
    ensures
        wire(e) == name_key() + (seq!['"'] + (escape(e.0) + seq!['"'] + after_name(e))),
        after_name(e) == args_key() + (seq!['"'] + (escape(e.1) + seq!['"'] + after_args(e))),
        after_args(e) == attempts_key() + (attempts_text(e.2) + seq!['}']),
{
    assert(wire(e) =~= name_key() + (seq!['"'] + (escape(e.0) + seq!['"'] + after_name(e))));
    assert(after_name(e) =~= args_key() + (seq!['"'] + (escape(e.1) + seq!['"'] + after_args(e))));
    assert(after_args(e) =~= attempts_key() + (attempts_text(e.2) + seq!['}']));
}

/// No two jobs have the same wire form.
pub proof fn lemma_wire_injective(a: JobView, b: JobView)
    requires
        wire(a) == wire(b),
    ensures
        a == b,
{
    lemma_wire_shape(a);
    lemma_wire_shape(b);
    lemma_field_unique(name_key(), a.0, b.0, after_name(a), after_name(b));
    lemma_field_unique(args_key(), a.1, b.1, after_args(a), after_args(b));
    lemma_cancel(attempts_key(), attempts_text(a.2) + seq!['}'], attempts_text(b.2) + seq!['}']);
    assert(attempts_text(a.2) =~= (attempts_text(a.2) + seq!['}']).drop_last());
    assert(attempts_text(b.2) =~= (attempts_text(b.2) + seq!['}']).drop_last());
    lemma_attempts_unique(a.2, b.2);
}

/// The wire form of `job` up to its attempt count.
pub open spec fn wire_head(job: JobView) -> Seq<char> {
    name_key() + quoted(job.0) + args_key() + quoted(job.1) + attempts_key()
}

/// The other tag a fresh count may be written with: `"NeverRetried"`.
pub open spec fn never_retried_text() -> Seq<char> {
    seq!['"', 'N', 'e', 'v', 'e', 'r', 'R', 'e', 't', 'r', 'i', 'e', 'd', '"']
}

/// The wire form of a fresh job written with the other tag.
pub open spec fn wire_never_retried(job: JobView) -> Seq<char> {
    wire_head(job) + never_retried_text() + seq!['}']
}

/// `text` is the wire form of a fresh `job` written with the other tag.
pub open spec fn is_never_retried_wire(job: JobView, text: Seq<char>) -> bool {
    job.2 == RetryCount::NeverRetried && wire_never_retried(job) == text
}

/// What reading a text gives: the job whose wire form it is, if there is one.
pub open spec fn read_wire(text: Seq<char>) -> Option<JobView> {
    if exists|e: JobView| wire(e) == text {
        Some(choose|e: JobView| wire(e) == text)
    } else if exists|e: JobView| is_never_retried_wire(e, text) {
        Some(choose|e: JobView| is_never_retried_wire(e, text))
    } else {
        None
    }
}

proof fn lemma_never_retried_injective(a: JobView, b: JobView)
    requires
        is_never_retried_wire(a, wire_never_retried(b)),
        b.2 == RetryCount::NeverRetried,
    ensures
        a == b,
{
    let tail = never_retried_text() + seq!['}'];
    assert(wire_never_retried(a) =~= wire_head(a) + tail);
    assert(wire_never_retried(b) =~= wire_head(b) + tail);
    assert(wire_head(a) =~= (wire_head(a) + tail).subrange(0, wire_head(a).len() as int));
    assert(wire_head(b) =~= (wire_head(b) + tail).subrange(0, wire_head(b).len() as int));
    assert(wire(a) =~= wire_head(a) + attempts_text(a.2) + seq!['}']);
    assert(wire(b) =~= wire_head(b) + attempts_text(b.2) + seq!['}']);
    lemma_wire_injective(a, b);
}

proof fn lemma_forms_differ(a: JobView, b: JobView)
    requires
        b.2 == RetryCount::NeverRetried,
    ensures
        wire(a) != wire_never_retried(b),
{
    let w = wire(a);
    let v = wire_never_retried(b);
    assert(w =~= wire_head(a) + (attempts_text(a.2) + seq!['}']));
    assert(v =~= wire_head(b) + (never_retried_text() + seq!['}']));
    if w == v {
        assert(v[v.len() - 3] == 'd');
        match a.2 {
            RetryCount::NeverRetried => {
                assert(w[w.len() - 3] == 'h');
            },
            RetryCount::Count(_) => {
                assert(w[w.len() - 2] == '}');
                assert(v[v.len() - 2] == '"');
            },
        }
    }
}

/// Reading the wire form of a job gives the job back.
pub proof fn lemma_wire_round_trip(job: JobView)
    ensures
        read_wire(wire(job)) == Some(job),
{
    let t = wire(job);
    assert(exists|e: JobView| wire(e) == t);
    let e = choose|e: JobView| wire(e) == t;
    lemma_wire_injective(e, job);
}

/// Reading a fresh job written with the other tag gives the job back.
pub proof fn lemma_never_retried_read(job: JobView)
    requires
        job.2 == RetryCount::NeverRetried,
    ensures
        read_wire(wire_never_retried(job)) == Some(job),
{
    let t = wire_never_retried(job);
    assert(is_never_retried_wire(job, t));
    if exists|e: JobView| wire(e) == t {
        let e = choose|e: JobView| wire(e) == t;
        lemma_forms_differ(e, job);
    }
    let e = choose|e: JobView| is_never_retried_wire(e, t);
    lemma_never_retried_injective(e, job);
}

/// How a fresh count and the closing brace end the wire form.
pub open spec fn fresh_tail() -> Seq<char> {
    seq!['"', 'F', 'r', 'e', 's', 'h', '"', '}']
}

/// How the other tag for a fresh count and the closing brace end the wire form.
pub open spec fn never_retried_tail() -> Seq<char> {
    never_retried_text() + seq!['}']
}

proof fn lemma_tails(e: JobView)
    ensures
        wire_never_retried(e) == wire_head(e) + never_retried_tail(),
        e.2 == RetryCount::NeverRetried ==> wire(e) == wire_head(e) + fresh_tail(),
{
    assert(wire_never_retried(e) =~= wire_head(e) + never_retried_tail());
    if e.2 == RetryCount::NeverRetried {
        assert(wire(e) =~= wire_head(e) + fresh_tail());
    }
}

proof fn lemma_cancel_tail(a: Seq<char>, b: Seq<char>, t: Seq<char>)
    requires
        a + t == b + t,
    ensures
        a == b,
{
    assert(a =~= (a + t).subrange(0, a.len() as int));
    assert(b =~= (b + t).subrange(0, b.len() as int));
}

proof fn lemma_fresh_form_back(job: JobView, head: Seq<char>)
    requires
        wire(job) == head + fresh_tail(),
    ensures
        job.2 == RetryCount::NeverRetried,
        wire_never_retried(job) == head + never_retried_tail(),
{
    let w = wire(job);
    assert(w[w.len() - 2] == '"');
    if let RetryCount::Count(_) = job.2 {
        assert(w =~= wire_head(job) + (attempts_text(job.2) + seq!['}']));
        assert(w[w.len() - 2] == '}');
    }
    lemma_tails(job);
    lemma_cancel_tail(wire_head(job), head, fresh_tail());
}

/// The text with its ending `"NeverRetried"}` replaced by `"Fresh"}`, when it ends so.
fn fresh_form(cs: &Vec<char>) -> (r: Option<String>)
    ensures
        r matches Some(t) ==> {
            &&& cs@.len() >= 15
            &&& cs@ == cs@.subrange(0, cs@.len() - 15) + never_retried_tail()
            &&& t@ == cs@.subrange(0, cs@.len() - 15) + fresh_tail()
        },
        (exists|h: Seq<char>| cs@ == h + never_retried_tail()) ==> r is Some,
{
    let n = cs.len();
    let suffix = ['"', 'N', 'e', 'v', 'e', 'r', 'R', 'e', 't', 'r', 'i', 'e', 'd', '"', '}'];
    assert(suffix@ =~= never_retried_tail());
    proof {
        if exists|h: Seq<char>| cs@ == h + never_retried_tail() {
            let h = choose|h: Seq<char>| cs@ == h + never_retried_tail();
            assert(cs@.subrange(h.len() as int, cs@.len() as int) =~= never_retried_tail());
        }
    }
    if n < 15 {
        return None;
    }
    let start = n - 15;
    if expect(cs, start, &suffix).is_none() {
        return None;
    }
    let mut t = String::new();
    let mut i: usize = 0;
    while i < start
        invariant
            i <= start,
            start + 15 == n,
            n == cs@.len(),
            t@ == cs@.subrange(0, i as int),
        decreases start - i,
    {
        append_char(&mut t, cs[i]);
        assert(cs@.subrange(0, i + 1) =~= cs@.subrange(0, i as int).push(cs@[i as int]));
        i = i + 1;
    }
    append_chars(&mut t, &['"', 'F', 'r', 'e', 's', 'h', '"', '}']);
    assert(cs@ =~= cs@.subrange(0, start as int) + never_retried_tail());
    assert(t@ =~= cs@.subrange(0, start as int) + fresh_tail());
    Some(t)
}

/// Read a job from its wire form: the texts `to_wire` writes, and those of fresh jobs
/// written with the tag `"NeverRetried"`. Any other text gives `None`.
pub fn from_wire(text: &str) -> (r: Option<EnqueuedJob>)
    ensures
        r is Some <==> read_wire(text@) is Some,
        r matches Some(j) ==> read_wire(text@) == Some(j@),
{
    if let Some(job) = from_canonical_wire(text) {
        proof {
            let c = choose|c: JobView| wire(c) == text@;
            lemma_wire_injective(c, job@);
        }
        return Some(job);
    }
    let cs = chars_of(text);
    proof {
        if exists|e: JobView| is_never_retried_wire(e, text@) {
            let e = choose|e: JobView| is_never_retried_wire(e, text@);
            lemma_tails(e);
        }
    }
    let t = fresh_form(&cs)?;
    let ghost head = cs@.subrange(0, cs@.len() - 15);
    proof {
        if exists|e: JobView| is_never_retried_wire(e, text@) {
            let e = choose|e: JobView| is_never_retried_wire(e, text@);
            lemma_tails(e);
            lemma_cancel_tail(wire_head(e), head, never_retried_tail());
        }
    }
    let job = from_canonical_wire(t.as_str())?;
    proof {
        lemma_fresh_form_back(job@, head);
        assert(is_never_retried_wire(job@, text@));
        if exists|e: JobView| wire(e) == text@ {
            let e = choose|e: JobView| wire(e) == text@;
            lemma_forms_differ(e, job@);
        }
        let c = choose|c: JobView| is_never_retried_wire(c, text@);
        lemma_never_retried_injective(c, job@);
    }
    Some(job)
}

} // verus!

verus! {

/// The text before the quoted arguments in their JSON object form.
pub open spec fn json_key() -> Seq<char> {
    seq!['{', '"', 'j', 's', 'o', 'n', '"', ':']
}

/// Serialized arguments `s` as the JSON object `{"json":<quoted s>}`.
pub open spec fn args_json(s: Seq<char>) -> Seq<char> {
    json_key() + quoted(s) + seq!['}']
}

/// The JSON object form of the serialized arguments `s`.
pub fn write_args_json(s: &str) -> (r: String)
    ensures
        r@ == args_json(s@),
{
    let mut out = String::new();
    append_chars(&mut out, &['{', '"', 'j', 's', 'o', 'n', '"', ':']);
    append_quoted(&mut out, s);
    append_chars(&mut out, &['}']);
    assert(out@ =~= args_json(s@));
    out
}

/// Read serialized arguments from their JSON object form. Exactly the texts that
/// `write_args_json` writes are read.
pub fn read_args_json(text: &str) -> (r: Option<String>)
    ensures
        r matches Some(s) ==> args_json(s@) == text@,
        (exists|s: Seq<char>| args_json(s) == text@) ==> r is Some,
{
    let cs = chars_of(text);
    let ghost len = cs@.len() as int;
    let ghost hyp = exists|s: Seq<char>| args_json(s) == text@;
    let ghost s = choose|s: Seq<char>| args_json(s) == text@;
    let ghost close = seq!['}'];
    let key = ['{', '"', 'j', 's', 'o', 'n', '"', ':'];
    assert(key@ =~= json_key());
    proof {
        if hyp {
            assert(cs@.subrange(0, len) =~= cs@);
            assert(args_json(s) =~= json_key() + (quoted(s) + close));
            lemma_split(cs@, 0, json_key(), quoted(s) + close);
        }
    }
    let p0 = expect(&cs, 0, &key)?;
    let (v, _) = parse_quoted(&cs, p0, Ghost(s), Ghost(close))?;
    let back = write_args_json(v.as_str());
    let original = text.to_string();
    if back == original {
        Some(v)
    } else {
        None
    }
}

} // verus!
