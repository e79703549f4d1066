use vstd::prelude::*;

verus! {

/// The views of a sequence of strings.
pub open spec fn views(v: Seq<String>) -> Seq<Seq<char>> {
    v.map_values(|s: String| s@)
}

/// `needle` occurs in `hay` as a contiguous run of characters.
pub open spec fn occurs_in(needle: Seq<char>, hay: Seq<char>) -> bool {
    exists|i: int|
        0 <= i && i + needle.len() <= hay.len() && #[trigger] hay.subrange(i, i + needle.len())
            == needle
}

/// The pieces of `s` between newline characters, as splitting on `'\n'` yields
/// them: one more piece than there are newlines, empty pieces included.
pub open spec fn split_on_newline(s: Seq<char>) -> Seq<Seq<char>>
    decreases s.len(),
{
    if s.len() == 0 {
        seq![Seq::empty()]
    } else {
        let p = split_on_newline(s.drop_last());
        if s.last() == '\n' {
            p.push(Seq::empty())
        } else {
            p.update(p.len() - 1, p.last().push(s.last()))
        }
    }
}

/// A line is kept when it is not empty and, with a filter, holds the filter text.
pub open spec fn line_kept(line: Seq<char>, filter: Option<Seq<char>>) -> bool {
    &&& line.len() > 0
    &&& match filter {
        Some(f) => occurs_in(f, line),
        None => true,
    }
}

/// The kept lines among `pieces`, in order.
pub open spec fn kept_lines(pieces: Seq<Seq<char>>, filter: Option<Seq<char>>) -> Seq<Seq<char>>
    decreases pieces.len(),
{
    if pieces.len() == 0 {
        Seq::empty()
    } else {
        let rest = kept_lines(pieces.drop_last(), filter);
        if line_kept(pieces.last(), filter) {
            rest.push(pieces.last())
        } else {
            rest
        }
    }
}

/// The lines of `raw` that hold one record each: the non-empty pieces between
/// newlines that pass the filter.
pub open spec fn record_lines(raw: Seq<char>, filter: Option<Seq<char>>) -> Seq<Seq<char>> {
    kept_lines(split_on_newline(raw), filter)
}

/// The view of an optional string slice.
pub open spec fn opt_view(o: Option<&str>) -> Option<Seq<char>> {
    match o {
        Some(s) => Some(s@),
        None => None,
    }
}

/// The characters of `s`, in order.
pub fn chars_of(s: &str) -> (r: Vec<char>)
    ensures
        r@ == s@,
{
    let mut r: Vec<char> = Vec::new();
    for c in it: s.chars()
        invariant
            r@ == it.seq().take(it.index() as int),
            it.seq() == s@,
    {
        r.push(c);
    }
    r
}

/// Whether `needle` occurs in `hay[lo..hi]`.
fn occurs_within(hay: &Vec<char>, lo: usize, hi: usize, needle: &Vec<char>) -> (r: bool)
    requires
        lo <= hi <= hay@.len(),
    ensures
        r == occurs_in(needle@, hay@.subrange(lo as int, hi as int)),
{
    let ghost window = hay@.subrange(lo as int, hi as int);
    let n = needle.len();
    if n > hi - lo {
        return false;
    }
    let last = hi - n;
    let mut i: usize = lo;
    while i <= last
        invariant
            lo <= i <= last + 1,
            last + n == hi,
            hi <= hay@.len(),
            n == needle@.len(),
            window == hay@.subrange(lo as int, hi as int),
            forall|k: int|
                0 <= k < i - lo ==> #[trigger] window.subrange(k, k + n) != needle@,
        decreases last + 1 - i,
    {
        let mut j: usize = 0;
        let mut same = true;
        while j < n
            invariant
                0 <= j <= n,
                i + n <= hi,
                hi <= hay@.len(),
                n == needle@.len(),
                same == (forall|m: int| 0 <= m < j ==> hay@[i + m] == needle@[m]),
            decreases n - j,
        {
            if hay[i + j] != needle[j] {
                same = false;
            }
            j = j + 1;
        }
        if same {
            assert(window.subrange(i - lo, i - lo + n) =~= needle@);
            return true;
        }
        proof {
            let m = choose|m: int| 0 <= m < n && hay@[i + m] != needle@[m];
            assert(window.subrange(i - lo, i - lo + n)[m] == hay@[i + m]);
        }
        i = i + 1;
    }
    proof {
        assert forall|k: int|
            0 <= k && k + needle@.len() <= window.len() implies #[trigger] window.subrange(
            k,
            k + needle@.len(),
        ) != needle@ by {
            assert(k < i - lo);
        }
    }
    false
}

/// Whether `a` and `b` hold the same text.
pub fn same_text(a: &str, b: &str) -> (r: bool)
    ensures
        r == (a@ == b@),
{
    let x = chars_of(a);
    let y = chars_of(b);
    if x.len() != y.len() {
        return false;
    }
    let mut i: usize = 0;
    while i < x.len()
        invariant
            i <= x@.len() == y@.len(),
            x@ == a@,
            y@ == b@,
            forall|j: int| 0 <= j < i ==> x@[j] == y@[j],
        decreases x@.len() - i,
    {
        if x[i] != y[i] {
            return false;
        }
        i = i + 1;
    }
    assert(x@ =~= y@);
    true
}

/// Whether `needle` occurs in `hay`.
pub fn contains(hay: &str, needle: &str) -> (r: bool)
    ensures
        r == occurs_in(needle@, hay@),
{
    let h = chars_of(hay);
    let n = chars_of(needle);
    assert(h@.subrange(0, h@.len() as int) =~= h@);
    occurs_within(&h, 0, h.len(), &n)
}

/// The lines of `raw` that hold one record each: split on newlines, empty lines
/// dropped, and with a filter only the lines that contain it.
pub fn select_lines(raw: &str, filter: Option<&str>) -> (r: Vec<String>)
    ensures
        views(r@) == record_lines(raw@, opt_view(filter)),
{
    let cs = chars_of(raw);
    let fs: Option<Vec<char>> = match filter {
        Some(f) => Some(chars_of(f)),
        None => None,
    };
    let ghost fv = opt_view(filter);
    let n = cs.len();
    let mut out: Vec<String> = Vec::new();
    let mut start: usize = 0;
    let mut i: usize = 0;
    proof {
        assert(cs@.take(0) =~= Seq::<char>::empty());
        assert(cs@.subrange(0, 0) =~= Seq::<char>::empty());
    }
    while i < n
        invariant
            0 <= start <= i <= n,
            n == cs@.len(),
            cs@ == raw@,
            fv == opt_view(filter),
            match fs {
                Some(v) => fv == Some(v@),
                None => fv is None,
            },
            split_on_newline(cs@.take(i as int)).len() >= 1,
            split_on_newline(cs@.take(i as int)).last() == cs@.subrange(start as int, i as int),
            views(out@) == kept_lines(split_on_newline(cs@.take(i as int)).drop_last(), fv),
        decreases n - i,
    {
        let ghost p = split_on_newline(cs@.take(i as int));
        assert(cs@.take(i + 1).drop_last() =~= cs@.take(i as int));
        assert(cs@.take(i + 1).last() == cs@[i as int]);
        if cs[i] == '\n' {
            push_if_kept(raw, &cs, start, i, &fs, Ghost(fv), &mut out);
            proof {
                let q = split_on_newline(cs@.take(i + 1));
                assert(q == p.push(Seq::empty()));
                assert(q.drop_last() =~= p);
                assert(p == p.drop_last().push(p.last()));
                assert(cs@.subrange(i + 1, i + 1) =~= Seq::<char>::empty());
            }
            start = i + 1;
        } else {
            proof {
                let q = split_on_newline(cs@.take(i + 1));
                assert(q == p.update(p.len() - 1, p.last().push(cs@[i as int])));
                assert(q.drop_last() =~= p.drop_last());
                assert(cs@.subrange(start as int, i + 1) =~= cs@.subrange(start as int, i as int).push(
                    cs@[i as int],
                ));
            }
        }
        i = i + 1;
    }
    proof {
        let p = split_on_newline(cs@.take(n as int));
        assert(p == p.drop_last().push(p.last()));
        assert(cs@.take(n as int) =~= cs@);
    }
    push_if_kept(raw, &cs, start, n, &fs, Ghost(fv), &mut out);
    out
}

/// Appends `raw[lo..hi]` to `out` when that line is kept.
fn push_if_kept(
    raw: &str,
    cs: &Vec<char>,
    lo: usize,
    hi: usize,
    fs: &Option<Vec<char>>,
    fv: Ghost<Option<Seq<char>>>,
    out: &mut Vec<String>,
)
    requires
        lo <= hi <= cs@.len(),
        cs@ == raw@,
        match fs {
            Some(v) => fv@ == Some(v@),
            None => fv@ is None,
        },
    ensures
        views(final(out)@) == if line_kept(cs@.subrange(lo as int, hi as int), fv@) {
            views(old(out)@).push(cs@.subrange(lo as int, hi as int))
        } else {
            views(old(out)@)
        },
{
    let ghost line = cs@.subrange(lo as int, hi as int);
    let keep = if lo == hi {
        false
    } else {
        match fs {
            Some(f) => occurs_within(cs, lo, hi, f),
            None => true,
        }
    };
    if keep {
        let s = raw.substring_char(lo, hi).to_string();
        out.push(s);
        assert(views(out@) =~= views(old(out)@).push(line));
    }
}

/// The Unicode `White_Space` property of a character.
pub uninterp spec fn white_space(c: char) -> bool;

/// Relies on `char::is_whitespace`: whether `c` has the `White_Space` property,
/// which depends on the character alone.
#[verifier::external_body]
fn is_white_space(c: char) -> (r: bool)
    ensures
        r == white_space(c),
{
    c.is_whitespace()
}

/// Where `s` starts once its leading white space is dropped.
pub open spec fn trim_start_at(s: Seq<char>, lo: int) -> int
    decreases s.len() - lo,
{
    if 0 <= lo < s.len() && white_space(s[lo]) {
        trim_start_at(s, lo + 1)
    } else {
        lo
    }
}

/// Where `s[lo..]` ends once its trailing white space is dropped.
pub open spec fn trim_end_at(s: Seq<char>, lo: int, hi: int) -> int
    decreases hi - lo,
{
    if lo < hi && 0 < hi <= s.len() && white_space(s[hi - 1]) {
        trim_end_at(s, lo, hi - 1)
    } else {
        hi
    }
}

/// `s` without its leading and trailing white space.
pub open spec fn trimmed(s: Seq<char>) -> Seq<char> {
    let lo = trim_start_at(s, 0);
    s.subrange(lo, trim_end_at(s, lo, s.len() as int))
}

/// `s` without its leading and trailing white space.
pub fn trim(s: &str) -> (r: String)
    ensures
        r@ == trimmed(s@),
{
    let cs = chars_of(s);
    let n = cs.len();
    let mut lo: usize = 0;
    while lo < n && is_white_space(cs[lo])
        invariant
            lo <= n == cs@.len(),
            cs@ == s@,
            trim_start_at(s@, lo as int) == trim_start_at(s@, 0),
        decreases n - lo,
    {
        lo = lo + 1;
    }
    let mut hi: usize = n;
    while hi > lo && is_white_space(cs[hi - 1])
        invariant
            lo <= hi <= n == cs@.len(),
            cs@ == s@,
            lo == trim_start_at(s@, 0),
            trim_end_at(s@, lo as int, hi as int) == trim_end_at(s@, lo as int, n as int),
        decreases hi - lo,
    {
        hi = hi - 1;
    }
    s.substring_char(lo, hi).to_string()
}

/// The decimal digit for `d`.
pub open spec fn digit_char(d: nat) -> char {
    "0123456789"@[d as int]
}

/// The decimal notation of `n`, without leading zeros.
pub open spec fn decimal(n: nat) -> Seq<char>
    decreases n,
{
    if n < 10 {
        seq![digit_char(n)]
    } else {
        decimal(n / 10).push(digit_char(n % 10))
    }
}

/// Decimal notation has at least one digit.
pub proof fn lemma_decimal_len(n: nat)
    ensures
        decimal(n).len() >= 1,
    decreases n,
{
    if n >= 10 {
        lemma_decimal_len(n / 10);
    }
}

/// The decimal notation of `n`.
pub fn decimal_string(n: usize) -> (r: String)
    ensures
        r@ == decimal(n as nat),
    decreases n,
{
    let digits = "0123456789";
    proof {
        reveal_strlit("0123456789");
    }
    let d = n % 10;
    let one = digits.substring_char(d, d + 1);
    assert(one@ =~= seq![digit_char(d as nat)]);
    if n < 10 {
        one.to_string()
    } else {
        let mut r = decimal_string(n / 10);
        r.append(one);
        assert(r@ =~= decimal(n as nat));
        r
    }
}

/// `a` followed by `b`.
pub fn concat_str(a: &str, b: &str) -> (r: String)
    ensures
        r@ == a@ + b@,
{
    let mut r = a.to_string();
    r.append(b);
    r
}

} // verus!
