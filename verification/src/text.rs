//! Character-level text helpers shared by the filters: truncation, padding,
//! decimal rendering and line joining, each stated over `Seq<char>`.

use vstd::prelude::*;

verus! {

/// The characters of `s`, in order.
pub fn chars_of(s: &str) -> (r: Vec<char>)
    ensures
        r@ == s@,
{
    let mut r: Vec<char> = Vec::new();
    for c in it: s.chars()
        invariant
            it.seq() == s@,
            r@ == it.seq().take(it.index() as int),
    {
        r.push(c);
    }
    r
}

/// A `String` holding exactly the given characters (collects them).
#[verifier::external_body]
pub(crate) fn string_of(chars: &Vec<char>) -> (s: String)
    ensures
        s@ == chars@,
{
    chars.iter().collect()
}

/// Appends the characters of `s` to `out`.
pub fn push_str(out: &mut Vec<char>, s: &str)
    ensures
        final(out)@ == old(out)@ + s@,
{
    let ghost start = out@;
    for c in it: s.chars()
        invariant
            it.seq() == s@,
            out@ == start + it.seq().take(it.index() as int),
    {
        out.push(c);
    }
}

} // verus!

verus! {

/// The three dots that mark a cut.
pub open spec fn ellipsis() -> Seq<char> {
    seq!['.', '.', '.']
}

/// `s` cut to at most `max` characters; a cut string ends in three dots,
/// and below three characters of room only the dots remain.
pub open spec fn truncated(s: Seq<char>, max: nat) -> Seq<char> {
    if s.len() <= max {
        s
    } else if max < 3 {
        ellipsis()
    } else {
        s.take(max - 3) + ellipsis()
    }
}

/// `n` copies of `c`.
pub open spec fn repeated(c: char, n: nat) -> Seq<char> {
    Seq::new(n, |_i: int| c)
}

/// `s` left-aligned in a field of `width` characters (as `{:<width}` does).
pub open spec fn padded(s: Seq<char>, width: nat) -> Seq<char> {
    if s.len() >= width {
        s
    } else {
        s + repeated(' ', (width - s.len()) as nat)
    }
}

/// The decimal digit for `d < 10`.
pub open spec fn digit(d: nat) -> char {
    if d == 0 { '0' } else if d == 1 { '1' } else if d == 2 { '2' } else if d == 3 { '3' }
    else if d == 4 { '4' } else if d == 5 { '5' } else if d == 6 { '6' } else if d == 7 { '7' }
    else if d == 8 { '8' } else { '9' }
}

/// The decimal rendering of `n`, without leading zeros.
pub open spec fn decimal(n: nat) -> Seq<char>
    decreases n,
{
    if n < 10 {
        seq![digit(n)]
    } else {
        decimal(n / 10).push(digit(n % 10))
    }
}

/// `parts` joined with `sep` between neighbours (as `join` does).
pub open spec fn joined(parts: Seq<Seq<char>>, sep: Seq<char>) -> Seq<char>
    decreases parts.len(),
{
    if parts.len() == 0 {
        Seq::empty()
    } else if parts.len() == 1 {
        parts[0]
    } else {
        joined(parts.drop_last(), sep) + sep + parts.last()
    }
}

/// The views of a vector of character vectors.
pub open spec fn views(v: Seq<Vec<char>>) -> Seq<Seq<char>> {
    v.map_values(|l: Vec<char>| l@)
}

/// `s` cut to at most `max` characters, as [`truncated`] says.
pub fn truncate_chars(s: &Vec<char>, max: usize) -> (r: Vec<char>)
    ensures
        r@ == truncated(s@, max as nat),
{
    if s.len() <= max {
        return s.clone();
    }
    let mut r: Vec<char> = Vec::new();
    if max >= 3 {
        let keep = max - 3;
        let mut i: usize = 0;
        while i < keep
            invariant
                keep < s.len(),
                i <= keep,
                r@ == s@.take(i as int),
            decreases keep - i,
        {
            r.push(s[i]);
            i += 1;
        }
    }
    r.push('.');
    r.push('.');
    r.push('.');
    r
}

/// `s` cut to at most `max_len` characters, ending in `...` when cut.
pub fn truncate(s: &str, max_len: usize) -> (r: String)
    ensures
        r@ == truncated(s@, max_len as nat),
{
    let cs = chars_of(s);
    let t = truncate_chars(&cs, max_len);
    string_of(&t)
}

/// Appends `n` copies of `c`.
pub fn push_repeated(out: &mut Vec<char>, c: char, n: usize)
    ensures
        final(out)@ == old(out)@ + repeated(c, n as nat),
{
    let ghost start = out@;
    let mut i: usize = 0;
    while i < n
        invariant
            i <= n,
            out@ == start + repeated(c, i as nat),
        decreases n - i,
    {
        out.push(c);
        i += 1;
        assert(start + repeated(c, i as nat) =~= (start + repeated(c, (i - 1) as nat)).push(c));
    }
}

/// Appends `s` left-aligned in a field of `width` characters.
pub fn push_padded(out: &mut Vec<char>, s: &Vec<char>, width: usize)
    ensures
        final(out)@ == old(out)@ + padded(s@, width as nat),
{
    let ghost start = out@;
    let mut i: usize = 0;
    while i < s.len()
        invariant
            i <= s.len(),
            out@ == start + s@.take(i as int),
        decreases s.len() - i,
    {
        out.push(s[i]);
        i += 1;
        assert(start + s@.take(i as int) =~= (start + s@.take((i - 1) as int)).push(s@[i - 1]));
    }
    assert(s@.take(s.len() as int) =~= s@);
    if s.len() < width {
        push_repeated(out, ' ', width - s.len());
    }
}

/// Appends all of `s`.
pub fn push_chars(out: &mut Vec<char>, s: &Vec<char>)
    ensures
        final(out)@ == old(out)@ + s@,
{
    push_padded(out, s, 0);
}

/// The character for the digit `d < 10`.
pub fn digit_of(d: u128) -> (c: char)
    requires
        d < 10,
    ensures
        c == digit(d as nat),
{
    if d == 0 { '0' } else if d == 1 { '1' } else if d == 2 { '2' } else if d == 3 { '3' }
    else if d == 4 { '4' } else if d == 5 { '5' } else if d == 6 { '6' } else if d == 7 { '7' }
    else if d == 8 { '8' } else { '9' }
}

/// Appends the decimal rendering of `n`.
pub fn push_decimal(out: &mut Vec<char>, n: u128)
    ensures
        final(out)@ == old(out)@ + decimal(n as nat),
    decreases n,
{
    if n >= 10 {
        push_decimal(out, n / 10);
    }
    out.push(digit_of(n % 10));
    assert(n >= 10 ==> decimal(n as nat) == decimal((n / 10) as nat).push(digit((n % 10) as nat)));
}

/// The parts joined with `sep` between neighbours.
pub fn join(parts: &Vec<Vec<char>>, sep: &str) -> (r: Vec<char>)
    ensures
        r@ == joined(views(parts@), sep@),
{
    let mut r: Vec<char> = Vec::new();
    let mut i: usize = 0;
    while i < parts.len()
        invariant
            i <= parts.len(),
            r@ == joined(views(parts@).take(i as int), sep@),
        decreases parts.len() - i,
    {
        let ghost before = views(parts@).take(i as int);
        if i > 0 {
            push_str(&mut r, sep);
        }
        push_chars(&mut r, &parts[i]);
        i += 1;
        let ghost after = views(parts@).take(i as int);
        assert(after.drop_last() =~= before);
        assert(after.last() == parts@[i - 1]@);
        if i == 1 {
            assert(r@ == after[0]);
        }
    }
    assert(views(parts@).take(parts.len() as int) =~= views(parts@));
    r
}

} // verus!

verus! {

/// The first position of `c` in `s`.
pub open spec fn index_of(s: Seq<char>, c: char) -> Option<int>
    decreases s.len(),
{
    if s.len() == 0 {
        None
    } else if s[0] == c {
        Some(0)
    } else {
        match index_of(s.drop_first(), c) {
            Some(i) => Some(i + 1),
            None => None,
        }
    }
}

/// `index_of` is the first position holding `c`, if any.
pub proof fn lemma_index_of(s: Seq<char>, c: char, i: int)
    requires
        0 <= i <= s.len(),
        forall|k: int| 0 <= k < i ==> s[k] != c,
        i < s.len() ==> s[i] == c,
    ensures
        index_of(s, c) == (if i < s.len() { Some(i) } else { None::<int> }),
    decreases s.len(),
{
    if s.len() > 0 && i > 0 {
        lemma_index_of(s.drop_first(), c, i - 1);
    }
}

/// A position that `index_of` finds holds `c` and lies inside `s`.
pub proof fn lemma_index_of_bounds(s: Seq<char>, c: char)
    ensures
        index_of(s, c) matches Some(i) ==> 0 <= i < s.len() && s[i] == c,
    decreases s.len(),
{
    if s.len() > 0 {
        lemma_index_of_bounds(s.drop_first(), c);
    }
}

/// Piece `n` (from 0) of `s` split at every `c` (as `split(c).nth(n)`).
pub open spec fn piece(s: Seq<char>, c: char, n: nat) -> Option<Seq<char>>
    decreases n,
{
    match index_of(s, c) {
        None => if n == 0 { Some(s) } else { None },
        Some(i) => if n == 0 { Some(s.take(i)) } else { piece(s.skip(i + 1), c, (n - 1) as nat) },
    }
}

/// `s` without the run of `c` at its end (as `trim_end_matches(c)`).
pub open spec fn trim_end_char(s: Seq<char>, c: char) -> Seq<char>
    decreases s.len(),
{
    if s.len() > 0 && s.last() == c {
        trim_end_char(s.drop_last(), c)
    } else {
        s
    }
}

/// The first position of `c` in `s`.
pub fn find_char(s: &Vec<char>, c: char) -> (r: Option<usize>)
    ensures
        match r {
            Some(i) => index_of(s@, c) == Some(i as int) && i < s.len() && s@[i as int] == c,
            None => index_of(s@, c) is None,
        },
{
    let mut i: usize = 0;
    while i < s.len()
        invariant
            i <= s.len(),
            forall|k: int| 0 <= k < i ==> s@[k] != c,
        decreases s.len() - i,
    {
        if s[i] == c {
            proof { lemma_index_of(s@, c, i as int); }
            return Some(i);
        }
        i += 1;
    }
    proof { lemma_index_of(s@, c, i as int); }
    None
}

/// Characters `from..to` of `s`.
pub fn slice_chars(s: &Vec<char>, from: usize, to: usize) -> (r: Vec<char>)
    requires
        from <= to <= s.len(),
    ensures
        r@ == s@.subrange(from as int, to as int),
{
    let mut r: Vec<char> = Vec::new();
    let mut i: usize = from;
    while i < to
        invariant
            from <= i <= to <= s.len(),
            r@ == s@.subrange(from as int, i as int),
        decreases to - i,
    {
        r.push(s[i]);
        i += 1;
        assert(r@ =~= s@.subrange(from as int, i as int));
    }
    r
}

/// Piece `n` of `s` split at every `c`.
pub fn nth_piece(s: &Vec<char>, c: char, n: usize) -> (r: Option<Vec<char>>)
    ensures
        match r {
            Some(p) => piece(s@, c, n as nat) == Some(p@),
            None => piece(s@, c, n as nat) is None,
        },
    decreases n,
{
    match find_char(s, c) {
        None => {
            if n == 0 {
                Some(s.clone())
            } else {
                None
            }
        },
        Some(i) => {
            if n == 0 {
                let p = slice_chars(s, 0, i);
                assert(p@ =~= s@.take(i as int));
                Some(p)
            } else {
                let rest = slice_chars(s, i + 1, s.len());
                assert(rest@ =~= s@.skip(i + 1));
                nth_piece(&rest, c, n - 1)
            }
        },
    }
}

/// `s` without the run of `c` at its end.
pub fn trim_end_matching(s: &Vec<char>, c: char) -> (r: Vec<char>)
    ensures
        r@ == trim_end_char(s@, c),
{
    let mut end: usize = s.len();
    assert(s@.take(end as int) =~= s@);
    while end > 0 && s[end - 1] == c
        invariant
            end <= s.len(),
            trim_end_char(s@.take(end as int), c) == trim_end_char(s@, c),
        decreases end,
    {
        assert(s@.take(end as int).drop_last() =~= s@.take(end - 1));
        end -= 1;
    }
    let r = slice_chars(s, 0, end);
    assert(r@ =~= s@.take(end as int));
    proof {
        assert(s@.take(s.len() as int) =~= s@);
    }
    r
}

/// Whether two character sequences are equal.
pub fn chars_equal(a: &Vec<char>, b: &Vec<char>) -> (r: bool)
    ensures
        r == (a@ == b@),
{
    if a.len() != b.len() {
        return false;
    }
    let mut i: usize = 0;
    while i < a.len()
        invariant
            a.len() == b.len(),
            i <= a.len(),
            forall|k: int| 0 <= k < i ==> a@[k] == b@[k],
        decreases a.len() - i,
    {
        if a[i] != b[i] {
            return false;
        }
        i += 1;
    }
    assert(a@ =~= b@);
    true
}

/// Whether the characters of `a` spell `b`.
pub fn chars_equal_str(a: &Vec<char>, b: &str) -> (r: bool)
    ensures
        r == (a@ == b@),
{
    let bs = chars_of(b);
    chars_equal(a, &bs)
}

/// Whether two strings are equal.
pub fn str_equal(a: &str, b: &str) -> (r: bool)
    ensures
        r == (a@ == b@),
{
    let a_chars = chars_of(a);
    chars_equal_str(&a_chars, b)
}

} // verus!

verus! {

/// The number of bytes that `c` takes in UTF-8.
pub open spec fn utf8_width(c: char) -> nat {
    if (c as u32) < 0x80 {
        1
    } else if (c as u32) < 0x800 {
        2
    } else if (c as u32) < 0x10000 {
        3
    } else {
        4
    }
}

/// The first `n` bytes of the UTF-8 text `s`, as the characters they hold
/// (as `&s[..s.len().min(n)]` does): all of `s` when it is no longer, and
/// `None` when byte `n` falls inside a character, where slicing would panic.
pub open spec fn byte_prefix(s: Seq<char>, n: nat) -> Option<Seq<char>>
    decreases s.len(),
{
    if s.len() == 0 || n == 0 {
        Some(Seq::empty())
    } else if utf8_width(s[0]) > n {
        None
    } else {
        match byte_prefix(s.drop_first(), (n - utf8_width(s[0])) as nat) {
            Some(t) => Some(seq![s[0]] + t),
            None => None,
        }
    }
}

/// The number of bytes that `c` takes in UTF-8.
pub fn utf8_width_of(c: char) -> (w: usize)
    ensures
        w == utf8_width(c),
{
    let v = c as u32;
    if v < 0x80 {
        1
    } else if v < 0x800 {
        2
    } else if v < 0x10000 {
        3
    } else {
        4
    }
}

/// The characters in the first `n` bytes of `s`, as [`byte_prefix`] says.
pub fn byte_prefix_of(s: &Vec<char>, n: usize) -> (r: Option<Vec<char>>)
    ensures
        match r {
            Some(p) => byte_prefix(s@, n as nat) == Some(p@),
            None => byte_prefix(s@, n as nat) is None,
        },
{
    let mut i: usize = 0;
    let mut rem: usize = n;
    assert(s@.skip(0) =~= s@);
    assert(s@.take(0) + s@ =~= s@);
    while i < s.len() && rem > 0
        invariant
            i <= s.len(),
            rem <= n,
            forall|t: Seq<char>| #![trigger (s@.take(i as int) + t)]
                byte_prefix(s@.skip(i as int), rem as nat) == Some(t)
                    ==> byte_prefix(s@, n as nat) == Some(s@.take(i as int) + t),
            byte_prefix(s@.skip(i as int), rem as nat) is None ==> byte_prefix(s@, n as nat) is None,
        decreases s.len() - i,
    {
        let w = utf8_width_of(s[i]);
        let ghost rest = s@.skip(i as int);
        assert(rest[0] == s@[i as int]);
        if w > rem {
            return None;
        }
        assert(rest.drop_first() =~= s@.skip(i + 1));
        assert forall|t: Seq<char>| #![trigger (s@.take(i + 1) + t)]
            byte_prefix(s@.skip(i + 1), (rem - w) as nat) == Some(t)
            implies byte_prefix(s@, n as nat) == Some(s@.take(i + 1) + t) by {
            assert(byte_prefix(rest, rem as nat) == Some(seq![s@[i as int]] + t));
            assert(s@.take(i as int) + (seq![s@[i as int]] + t) =~= s@.take(i + 1) + t);
        }
        rem -= w;
        i += 1;
    }
    assert(byte_prefix(s@.skip(i as int), rem as nat) == Some(Seq::<char>::empty()));
    assert(s@.take(i as int) + Seq::<char>::empty() =~= s@.take(i as int));
    Some(slice_chars(s, 0, i))
}

} // verus!

verus! {

/// Whether `c` is white space in Unicode's sense (as `char::is_whitespace`).
pub open spec fn is_space(c: char) -> bool {
    ||| ('\u{9}' <= c && c <= '\u{d}')
    ||| c == ' '
    ||| c == '\u{85}'
    ||| c == '\u{a0}'
    ||| c == '\u{1680}'
    ||| ('\u{2000}' <= c && c <= '\u{200a}')
    ||| c == '\u{2028}'
    ||| c == '\u{2029}'
    ||| c == '\u{202f}'
    ||| c == '\u{205f}'
    ||| c == '\u{3000}'
}

/// `s` without white space at its end.
pub open spec fn trim_end(s: Seq<char>) -> Seq<char>
    decreases s.len(),
{
    if s.len() > 0 && is_space(s.last()) {
        trim_end(s.drop_last())
    } else {
        s
    }
}

/// `s` without white space at its start.
pub open spec fn trim_start(s: Seq<char>) -> Seq<char>
    decreases s.len(),
{
    if s.len() > 0 && is_space(s[0]) {
        trim_start(s.drop_first())
    } else {
        s
    }
}

/// `s` without white space at either end (as `str::trim`).
pub open spec fn trim(s: Seq<char>) -> Seq<char> {
    trim_start(trim_end(s))
}

/// Whether `c` is white space, as [`is_space`] says.
pub fn is_space_char(c: char) -> (r: bool)
    ensures
        r == is_space(c),
{
    ('\u{9}' <= c && c <= '\u{d}') || c == ' ' || c == '\u{85}' || c == '\u{a0}' || c == '\u{1680}'
        || ('\u{2000}' <= c && c <= '\u{200a}') || c == '\u{2028}' || c == '\u{2029}'
        || c == '\u{202f}' || c == '\u{205f}' || c == '\u{3000}'
}

/// `s` without white space at either end, as [`trim`] says.
pub fn trim_chars(s: &Vec<char>) -> (r: Vec<char>)
    ensures
        r@ == trim(s@),
{
    let mut end: usize = s.len();
    assert(s@.take(end as int) =~= s@);
    while end > 0 && is_space_char(s[end - 1])
        invariant
            end <= s.len(),
            trim_end(s@.take(end as int)) == trim_end(s@),
        decreases end,
    {
        assert(s@.take(end as int).drop_last() =~= s@.take(end - 1));
        end -= 1;
    }
    let mut start: usize = 0;
    let ghost kept = s@.take(end as int);
    assert(trim_end(kept) == kept);
    assert(kept.subrange(0, end as int) =~= kept);
    while start < end && is_space_char(s[start])
        invariant
            start <= end <= s.len(),
            kept == s@.take(end as int),
            trim_start(kept.subrange(start as int, end as int)) == trim_start(kept),
        decreases end - start,
    {
        assert(kept.subrange(start as int, end as int).drop_first() =~= kept.subrange(start + 1, end as int));
        start += 1;
    }
    let r = slice_chars(s, start, end);
    assert(r@ =~= kept.subrange(start as int, end as int));
    r
}

/// The lines of `s` (as `str::lines`): split after each `\n`, the `\n` and
/// a `\r` just before it dropped, with no empty line after a final `\n`.
pub open spec fn lines_of(s: Seq<char>) -> Seq<Seq<char>>
    decreases s.len(),
{
    if s.len() == 0 {
        Seq::empty()
    } else {
        match index_of(s, '\n') {
            None => seq![s],
            Some(i) => {
                proof {
                    lemma_index_of_bounds(s, '\n');
                }
                let line = s.take(i);
                let line = if line.len() > 0 && line.last() == '\r' { line.drop_last() } else { line };
                seq![line] + lines_of(s.skip(i + 1))
            },
        }
    }
}

/// The lines of `s`, as [`lines_of`] says.
pub fn split_lines(s: &Vec<char>) -> (r: Vec<Vec<char>>)
    ensures
        views(r@) == lines_of(s@),
    decreases s.len(),
{
    if s.len() == 0 {
        let r: Vec<Vec<char>> = Vec::new();
        assert(views(r@) =~= Seq::<Seq<char>>::empty());
        return r;
    }
    match find_char(s, '\n') {
        None => {
            let mut r: Vec<Vec<char>> = Vec::new();
            r.push(s.clone());
            assert(views(r@) =~= seq![s@]);
            r
        },
        Some(i) => {
            let mut line = slice_chars(s, 0, i);
            assert(line@ =~= s@.take(i as int));
            if line.len() > 0 && line[line.len() - 1] == '\r' {
                line = slice_chars(&line, 0, line.len() - 1);
                assert(line@ =~= s@.take(i as int).drop_last());
            }
            let rest = slice_chars(s, i + 1, s.len());
            assert(rest@ =~= s@.skip(i + 1));
            let tail = split_lines(&rest);
            let mut r: Vec<Vec<char>> = Vec::new();
            r.push(line);
            let ghost first = line@;
            let mut k: usize = 0;
            while k < tail.len()
                invariant
                    k <= tail.len(),
                    r.len() == k + 1,
                    r@[0]@ == first,
                    forall|j: int| 0 <= j < k ==> r@[j + 1]@ == (#[trigger] tail@[j])@,
                decreases tail.len() - k,
            {
                r.push(tail[k].clone());
                k += 1;
            }
            assert(views(r@) =~= seq![first] + views(tail@));
            r
        },
    }
}

} // verus!
