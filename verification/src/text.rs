//! Character-level text operations with their specifications: whitespace
//! trimming, substring search, line splitting, joining and decimal rendering.

use vstd::prelude::*;

verus! {

/// `String::push`: appends one character.
#[verifier::external_body]
pub(crate) fn push_char(s: &mut String, c: char)
    ensures
        final(s)@ == old(s)@.push(c),
{
    s.push(c);
}

/// The characters of a string slice, in order.
pub fn chars_of(s: &str) -> (res: Vec<char>)
    ensures
        res@ == s@,
{
    let mut res: Vec<char> = Vec::new();
    for c in it: s.chars()
        invariant
            it.seq() == s@,
            res@ == it.seq().take(it.index() as int),
    {
        res.push(c);
    }
    assert(res@ =~= s@);
    res
}

/// The string made of the given characters.
pub fn string_of(cs: &Vec<char>) -> (res: String)
    ensures
        res@ == cs@,
{
    let mut res = String::new();
    let mut i: usize = 0;
    while i < cs.len()
        invariant
            i <= cs.len(),
            res@ == cs@.take(i as int),
        decreases cs.len() - i,
    {
        push_char(&mut res, cs[i]);
        assert(cs@.take(i as int).push(cs@[i as int]) =~= cs@.take(i + 1));
        i += 1;
    }
    assert(cs@.take(cs.len() as int) =~= cs@);
    res
}


/// The characters with the Unicode `White_Space` property, which is the set
/// that `char::is_whitespace`, and so `str::trim`, recognises.
pub open spec fn is_white_space(c: char) -> bool {
    let n = c as u32;
    ||| 0x9 <= n <= 0xd
    ||| n == 0x20
    ||| n == 0x85
    ||| n == 0xa0
    ||| n == 0x1680
    ||| 0x2000 <= n <= 0x200a
    ||| n == 0x2028
    ||| n == 0x2029
    ||| n == 0x202f
    ||| n == 0x205f
    ||| n == 0x3000
}

pub fn is_white_space_char(c: char) -> (r: bool)
    ensures
        r == is_white_space(c),
{
    let n = c as u32;
    (0x9 <= n && n <= 0xd) || n == 0x20 || n == 0x85 || n == 0xa0 || n == 0x1680 || (0x2000 <= n
        && n <= 0x200a) || n == 0x2028 || n == 0x2029 || n == 0x202f || n == 0x205f || n == 0x3000
}

/// `s` without its leading whitespace.
pub open spec fn strip_leading_ws(s: Seq<char>) -> Seq<char>
    decreases s.len(),
{
    if s.len() > 0 && is_white_space(s[0]) {
        strip_leading_ws(s.drop_first())
    } else {
        s
    }
}

/// `s` without its trailing whitespace.
pub open spec fn strip_trailing_ws(s: Seq<char>) -> Seq<char>
    decreases s.len(),
{
    if s.len() > 0 && is_white_space(s.last()) {
        strip_trailing_ws(s.drop_last())
    } else {
        s
    }
}

/// What `str::trim` leaves of `s`: no leading and no trailing whitespace.
pub open spec fn trimmed(s: Seq<char>) -> Seq<char> {
    strip_trailing_ws(strip_leading_ws(s))
}

/// The characters of `s` without leading and trailing whitespace.
pub fn trim_chars(s: &Vec<char>) -> (res: Vec<char>)
    ensures
        res@ == trimmed(s@),
{
    let n = s.len();
    let mut lo: usize = 0;
    assert(s@.subrange(0, n as int) =~= s@);
    while lo < n && is_white_space_char(s[lo])
        invariant
            n == s.len(),
            lo <= n,
            strip_leading_ws(s@) == strip_leading_ws(s@.subrange(lo as int, n as int)),
        decreases n - lo,
    {
        assert(s@.subrange(lo as int, n as int).drop_first() =~= s@.subrange(lo + 1, n as int));
        lo += 1;
    }
    let ghost front = s@.subrange(lo as int, n as int);
    assert(strip_leading_ws(s@) == front) by {
        if lo == n {
            assert(front.len() == 0);
        }
    }
    let mut hi: usize = n;
    while hi > lo && is_white_space_char(s[hi - 1])
        invariant
            n == s.len(),
            lo <= hi <= n,
            front == s@.subrange(lo as int, n as int),
            strip_trailing_ws(front) == strip_trailing_ws(s@.subrange(lo as int, hi as int)),
        decreases hi - lo,
    {
        assert(s@.subrange(lo as int, hi as int).drop_last() =~= s@.subrange(
            lo as int,
            hi - 1,
        ));
        hi -= 1;
    }
    let mut res: Vec<char> = Vec::new();
    let mut i: usize = lo;
    while i < hi
        invariant
            n == s.len(),
            lo <= i <= hi <= n,
            res@ == s@.subrange(lo as int, i as int),
        decreases hi - i,
    {
        res.push(s[i]);
        assert(s@.subrange(lo as int, i + 1) =~= s@.subrange(lo as int, i as int).push(
            s@[i as int],
        ));
        i += 1;
    }
    res
}

/// `pat` stands in `s` starting at position `i`.
pub open spec fn occurs_at(s: Seq<char>, pat: Seq<char>, i: int) -> bool {
    &&& 0 <= i
    &&& i + pat.len() <= s.len()
    &&& s.subrange(i, i + pat.len()) == pat
}

/// `str::contains` with a string pattern.
pub open spec fn contains_text(s: Seq<char>, pat: Seq<char>) -> bool {
    exists|i: int| occurs_at(s, pat, i)
}

/// `i` is the position of the first occurrence of `pat` in `s`.
pub open spec fn is_first_occurrence(s: Seq<char>, pat: Seq<char>, i: int) -> bool {
    &&& occurs_at(s, pat, i)
    &&& forall|j: int| 0 <= j < i ==> !occurs_at(s, pat, j)
}

/// The first piece of `s` split at `pat` (`s.split(pat).next()`): what
/// precedes the first occurrence of `pat`, or all of `s`.
pub open spec fn text_before(s: Seq<char>, pat: Seq<char>) -> Seq<char> {
    if exists|i: int| is_first_occurrence(s, pat, i) {
        s.take(choose|i: int| is_first_occurrence(s, pat, i))
    } else {
        s
    }
}

fn occurs_at_exec(s: &Vec<char>, pat: &Vec<char>, i: usize) -> (r: bool)
    requires
        i + pat.len() <= s.len(),
    ensures
        r == occurs_at(s@, pat@, i as int),
{
    let mut j: usize = 0;
    while j < pat.len()
        invariant
            i + pat.len() <= s.len(),
            j <= pat.len(),
            forall|k: int| 0 <= k < j ==> s@[i + k] == pat@[k],
        decreases pat.len() - j,
    {
        if s[i + j] != pat[j] {
            assert(s@.subrange(i as int, i + pat.len())[j as int] != pat@[j as int]);
            return false;
        }
        j += 1;
    }
    assert(s@.subrange(i as int, i + pat.len()) =~= pat@);
    true
}

/// The position of the first occurrence of `pat` in `s`, if there is one.
pub fn find_text(s: &Vec<char>, pat: &Vec<char>) -> (r: Option<usize>)
    ensures
        r matches Some(i) ==> is_first_occurrence(s@, pat@, i as int),
        r is None ==> !contains_text(s@, pat@),
{
    if pat.len() > s.len() {
        return None;
    }
    let last = s.len() - pat.len();
    let mut i: usize = 0;
    loop
        invariant
            last == s.len() - pat.len(),
            pat.len() <= s.len(),
            i <= last,
            forall|j: int| 0 <= j < i ==> !occurs_at(s@, pat@, j),
        decreases last - i,
    {
        if occurs_at_exec(s, pat, i) {
            return Some(i);
        }
        if i == last {
            return None;
        }
        i += 1;
    }
}

/// `str::contains` on character vectors.
pub fn contains_chars(s: &Vec<char>, pat: &Vec<char>) -> (r: bool)
    ensures
        r == contains_text(s@, pat@),
{
    match find_text(s, pat) {
        Some(_) => true,
        None => false,
    }
}

/// The characters of `s` before the first occurrence of `pat`, or all of them.
pub fn chars_before(s: &Vec<char>, pat: &Vec<char>) -> (res: Vec<char>)
    ensures
        res@ == text_before(s@, pat@),
{
    match find_text(s, pat) {
        Some(k) => {
            let mut res: Vec<char> = Vec::new();
            let mut i: usize = 0;
            while i < k
                invariant
                    k <= s.len(),
                    i <= k,
                    res@ == s@.take(i as int),
                decreases k - i,
            {
                res.push(s[i]);
                assert(s@.take(i + 1) =~= s@.take(i as int).push(s@[i as int]));
                i += 1;
            }
            proof {
                lemma_first_occurrence_unique(s@, pat@, k as int);
            }
            res
        },
        None => {
            assert(!exists|i: int| is_first_occurrence(s@, pat@, i));
            s.clone()
        },
    }
}

proof fn lemma_first_occurrence_unique(s: Seq<char>, pat: Seq<char>, k: int)
    requires
        is_first_occurrence(s, pat, k),
    ensures
        (choose|i: int| is_first_occurrence(s, pat, i)) == k,
{
    let c = choose|i: int| is_first_occurrence(s, pat, i);
    assert(is_first_occurrence(s, pat, c));
    if c < k {
        assert(!occurs_at(s, pat, c));
    } else if k < c {
        assert(!occurs_at(s, pat, k));
    }
}


/// The number of characters before the first `'\n'` of `s` (all of them if
/// there is none).
pub open spec fn line_end(s: Seq<char>) -> int
    decreases s.len(),
{
    if s.len() == 0 || s[0] == '\n' {
        0
    } else {
        1 + line_end(s.drop_first())
    }
}

/// A line taken off before a `'\n'` loses a final `'\r'`.
pub open spec fn without_cr(line: Seq<char>) -> Seq<char> {
    if line.len() > 0 && line.last() == '\r' {
        line.drop_last()
    } else {
        line
    }
}

pub proof fn lemma_line_end_bounds(s: Seq<char>)
    ensures
        0 <= line_end(s) <= s.len(),
        line_end(s) < s.len() ==> s[line_end(s)] == '\n',
        forall|k: int| 0 <= k < line_end(s) ==> s[k] != '\n',
    decreases s.len(),
{
    if s.len() > 0 && s[0] != '\n' {
        lemma_line_end_bounds(s.drop_first());
        assert forall|k: int| 0 <= k < line_end(s) implies s[k] != '\n' by {
            if k > 0 {
                assert(s[k] == s.drop_first()[k - 1]);
            }
        }
    }
}

/// `str::lines`: the pieces of `s` between `'\n'` characters, where a final
/// `'\n'` ends the last line rather than starting an empty one, and a line
/// that ends with `'\r'` before its `'\n'` loses that `'\r'`.
pub open spec fn text_lines(s: Seq<char>) -> Seq<Seq<char>>
    decreases s.len(),
{
    if s.len() == 0 {
        seq![]
    } else {
        let k = line_end(s);
        if k >= s.len() {
            seq![s]
        } else {
            proof {
                lemma_line_end_bounds(s);
            }
            seq![without_cr(s.take(k))] + text_lines(s.skip(k + 1))
        }
    }
}

proof fn lemma_line_end_append(cur: Seq<char>, t: Seq<char>)
    requires
        forall|k: int| 0 <= k < cur.len() ==> cur[k] != '\n',
    ensures
        line_end(cur + t) == cur.len() + line_end(t),
    decreases cur.len(),
{
    if cur.len() > 0 {
        assert((cur + t).drop_first() =~= cur.drop_first() + t);
        lemma_line_end_append(cur.drop_first(), t);
    } else {
        assert(cur + t =~= t);
    }
}

fn without_cr_exec(line: Vec<char>) -> (res: Vec<char>)
    ensures
        res@ == without_cr(line@),
{
    let mut line = line;
    if line.len() > 0 && line[line.len() - 1] == '\r' {
        line.pop();
    }
    line
}

/// The character sequences held by a vector of character vectors.
pub open spec fn rows_view(rows: Seq<Vec<char>>) -> Seq<Seq<char>> {
    rows.map_values(|r: Vec<char>| r@)
}

/// The lines of `s`, as `str::lines` gives them.
pub fn lines_of(s: &Vec<char>) -> (res: Vec<Vec<char>>)
    ensures
        rows_view(res@) == text_lines(s@),
{
    let mut done: Vec<Vec<char>> = Vec::new();
    let mut cur: Vec<char> = Vec::new();
    let mut i: usize = 0;
    assert(cur@ + s@.skip(0) =~= s@);
    assert(rows_view(done@) =~= Seq::<Seq<char>>::empty());
    assert(rows_view(done@) + text_lines(s@) =~= text_lines(s@));
    while i < s.len()
        invariant
            i <= s.len(),
            forall|k: int| 0 <= k < cur@.len() ==> cur@[k] != '\n',
            text_lines(s@) == rows_view(done@) + text_lines(cur@ + s@.skip(i as int)),
        decreases s.len() - i,
    {
        let c = s[i];
        let ghost rest = s@.skip(i + 1);
        assert(s@.skip(i as int) =~= seq![c] + rest);
        if c == '\n' {
            let ghost whole = cur@ + s@.skip(i as int);
            proof {
                lemma_line_end_append(cur@, s@.skip(i as int));
                assert(whole.take(cur@.len() as int) =~= cur@);
                assert(whole.skip(cur@.len() + 1int) =~= rest);
            }
            let line = without_cr_exec(cur);
            let ghost before = rows_view(done@);
            let ghost line_view = line@;
            done.push(line);
            assert(rows_view(done@) =~= before.push(line_view));
            cur = Vec::new();
            assert(cur@ + rest =~= rest);
        } else {
            assert(cur@.push(c) + rest =~= cur@ + s@.skip(i as int));
            cur.push(c);
        }
        i += 1;
    }
    proof {
        assert(cur@ + s@.skip(i as int) =~= cur@);
        lemma_line_end_append(cur@, Seq::<char>::empty());
        assert(cur@ + Seq::<char>::empty() =~= cur@);
    }
    let ghost before = rows_view(done@);
    assert(before + text_lines(cur@) == text_lines(s@));
    if cur.len() > 0 {
        let ghost line_view = cur@;
        done.push(cur);
        assert(rows_view(done@) =~= before.push(line_view));
    }
    assert(text_lines(s@) =~= rows_view(done@));
    done
}


/// `parts` joined with `sep` between neighbours (`[T]::join`).
pub open spec fn joined(parts: Seq<Seq<char>>, sep: Seq<char>) -> Seq<char>
    decreases parts.len(),
{
    if parts.len() == 0 {
        seq![]
    } else if parts.len() == 1 {
        parts[0]
    } else {
        joined(parts.drop_last(), sep) + sep + parts.last()
    }
}

/// Appends the characters of `more` to `out`.
pub fn extend_chars(out: &mut Vec<char>, more: &Vec<char>)
    ensures
        final(out)@ == old(out)@ + more@,
{
    let ghost start = out@;
    let mut i: usize = 0;
    while i < more.len()
        invariant
            i <= more.len(),
            out@ == start + more@.take(i as int),
        decreases more.len() - i,
    {
        out.push(more[i]);
        assert(start + more@.take(i + 1) =~= (start + more@.take(i as int)).push(more@[i as int]));
        i += 1;
    }
    assert(more@.take(more.len() as int) =~= more@);
}

/// The rows of `parts` joined with `sep` between neighbours.
pub fn join_rows(parts: &Vec<Vec<char>>, sep: &Vec<char>) -> (res: Vec<char>)
    ensures
        res@ == joined(rows_view(parts@), sep@),
{
    let mut res: Vec<char> = Vec::new();
    let mut i: usize = 0;
    assert(rows_view(parts@).take(0) =~= Seq::<Seq<char>>::empty());
    while i < parts.len()
        invariant
            i <= parts.len(),
            res@ == joined(rows_view(parts@).take(i as int), sep@),
        decreases parts.len() - i,
    {
        let ghost prefix = rows_view(parts@).take(i + 1);
        assert(prefix.drop_last() =~= rows_view(parts@).take(i as int));
        if i > 0 {
            extend_chars(&mut res, sep);
        } else {
            assert(res@ =~= Seq::<char>::empty());
        }
        extend_chars(&mut res, &parts[i]);
        i += 1;
    }
    assert(rows_view(parts@).take(parts.len() as int) =~= rows_view(parts@));
    res
}

/// The decimal digit character for `d < 10`.
pub open spec fn digit_char(d: nat) -> char {
    if d == 0 {
        '0'
    } else if d == 1 {
        '1'
    } else if d == 2 {
        '2'
    } else if d == 3 {
        '3'
    } else if d == 4 {
        '4'
    } else if d == 5 {
        '5'
    } else if d == 6 {
        '6'
    } else if d == 7 {
        '7'
    } else if d == 8 {
        '8'
    } else {
        '9'
    }
}

/// The decimal notation of `n`, as `Display` writes an unsigned integer.
pub open spec fn decimal(n: nat) -> Seq<char>
    decreases n,
{
    if n < 10 {
        seq![digit_char(n)]
    } else {
        decimal(n / 10).push(digit_char(n % 10))
    }
}

fn digit_char_exec(d: u64) -> (c: char)
    requires
        d < 10,
    ensures
        c == digit_char(d as nat),
{
    if d == 0 {
        '0'
    } else if d == 1 {
        '1'
    } else if d == 2 {
        '2'
    } else if d == 3 {
        '3'
    } else if d == 4 {
        '4'
    } else if d == 5 {
        '5'
    } else if d == 6 {
        '6'
    } else if d == 7 {
        '7'
    } else if d == 8 {
        '8'
    } else {
        '9'
    }
}

/// Appends the decimal notation of `n` to `out`.
pub fn push_decimal(out: &mut Vec<char>, n: u64)
    ensures
        final(out)@ == old(out)@ + decimal(n as nat),
    decreases n,
{
    if n >= 10 {
        push_decimal(out, n / 10);
    }
    let ghost before = out@;
    out.push(digit_char_exec(n % 10));
    assert(out@ =~= old(out)@ + decimal(n as nat));
}

/// Distinct numbers have distinct decimal notations.
pub proof fn lemma_decimal_injective(a: nat, b: nat)
    requires
        decimal(a) == decimal(b),
    ensures
        a == b,
    decreases a,
{
    lemma_decimal_len(a);
    lemma_decimal_len(b);
    lemma_digit_char_injective(a % 10, b % 10);
    if a >= 10 && b >= 10 {
        assert(decimal(a).drop_last() =~= decimal(a / 10));
        assert(decimal(b).drop_last() =~= decimal(b / 10));
        lemma_decimal_injective(a / 10, b / 10);
    } else if a < 10 && b < 10 {
        lemma_digit_char_injective(a, b);
    }
}

proof fn lemma_decimal_len(n: nat)
    ensures
        decimal(n).len() >= 1,
        n >= 10 ==> decimal(n).len() >= 2,
        decimal(n).last() == digit_char(n % 10),
    decreases n,
{
    if n >= 10 {
        lemma_decimal_len(n / 10);
    }
}

proof fn lemma_digit_char_injective(a: nat, b: nat)
    requires
        a < 10,
        b < 10,
        digit_char(a) == digit_char(b),
    ensures
        a == b,
{
}

} // verus!
