//! Character classes and sequence operations on text, stated over `Seq<char>`
//! and implemented over `Vec<char>`.
use vstd::prelude::*;

verus! {

// ---------------------------------------------------------------------------
// Character classes
// ---------------------------------------------------------------------------

pub open spec fn is_ascii_digit(c: char) -> bool {
    '0' <= c && c <= '9'
}

pub open spec fn is_ascii_upper(c: char) -> bool {
    'A' <= c && c <= 'Z'
}

pub open spec fn is_ascii_lower(c: char) -> bool {
    'a' <= c && c <= 'z'
}

pub open spec fn is_ascii_alnum(c: char) -> bool {
    is_ascii_digit(c) || is_ascii_upper(c) || is_ascii_lower(c)
}

/// The lower-case form of an ASCII upper-case letter; every other character
/// is unchanged (as `char::to_ascii_lowercase`).
pub open spec fn ascii_lower(c: char) -> char {
    if is_ascii_upper(c) {
        ((c as u32) + 32) as char
    } else {
        c
    }
}

/// Characters with the Unicode `White_Space` property (as `char::is_whitespace`).
pub open spec fn is_whitespace(c: char) -> bool {
    ||| '\t' <= c && c <= '\r'
    ||| c == ' '
    ||| c == '\u{85}'
    ||| c == '\u{a0}'
    ||| c == '\u{1680}'
    ||| '\u{2000}' <= c && c <= '\u{200a}'
    ||| c == '\u{2028}'
    ||| c == '\u{2029}'
    ||| c == '\u{202f}'
    ||| c == '\u{205f}'
    ||| c == '\u{3000}'
}

/// The separators of `str::split_ascii_whitespace`.
pub open spec fn is_ascii_whitespace(c: char) -> bool {
    c == ' ' || c == '\t' || c == '\n' || c == '\x0C' || c == '\r'
}

/// Characters of the Unicode general category `Cc` (as `char::is_control`).
pub open spec fn is_control(c: char) -> bool {
    c <= '\u{1f}' || ('\u{7f}' <= c && c <= '\u{9f}')
}

pub fn ascii_digit(c: char) -> (r: bool)
    ensures
        r == is_ascii_digit(c),
{
    '0' <= c && c <= '9'
}

pub fn ascii_upper(c: char) -> (r: bool)
    ensures
        r == is_ascii_upper(c),
{
    'A' <= c && c <= 'Z'
}

pub fn ascii_lower_letter(c: char) -> (r: bool)
    ensures
        r == is_ascii_lower(c),
{
    'a' <= c && c <= 'z'
}

pub fn ascii_alnum(c: char) -> (r: bool)
    ensures
        r == is_ascii_alnum(c),
{
    ascii_digit(c) || ascii_upper(c) || ascii_lower_letter(c)
}

pub fn to_ascii_lower(c: char) -> (r: char)
    ensures
        r == ascii_lower(c),
{
    if ascii_upper(c) {
        let b: u8 = c as u8;
        assert(b == c as u32);
        ((b + 32) as u8) as char
    } else {
        c
    }
}

pub fn whitespace(c: char) -> (r: bool)
    ensures
        r == is_whitespace(c),
{
    ('\t' <= c && c <= '\r') || c == ' ' || c == '\u{85}' || c == '\u{a0}' || c == '\u{1680}'
        || ('\u{2000}' <= c && c <= '\u{200a}') || c == '\u{2028}' || c == '\u{2029}' || c
        == '\u{202f}' || c == '\u{205f}' || c == '\u{3000}'
}

pub fn ascii_whitespace(c: char) -> (r: bool)
    ensures
        r == is_ascii_whitespace(c),
{
    c == ' ' || c == '\t' || c == '\n' || c == '\x0C' || c == '\r'
}

pub fn control(c: char) -> (r: bool)
    ensures
        r == is_control(c),
{
    c <= '\u{1f}' || ('\u{7f}' <= c && c <= '\u{9f}')
}

// ---------------------------------------------------------------------------
// Conversions between strings and character vectors
// ---------------------------------------------------------------------------

/// Appends one character to a string (`String::push`).
#[verifier::external_body]
pub(crate) fn push_char(s: &mut String, c: char)
    ensures
        final(s)@ == old(s)@.push(c),
{
    s.push(c)
}

pub open spec fn opt_view(o: Option<String>) -> Option<Seq<char>> {
    match o {
        Some(s) => Some(s@),
        None => None,
    }
}

pub fn chars_of(s: &str) -> (v: Vec<char>)
    ensures
        v@ == s@,
{
    let mut v: Vec<char> = Vec::new();
    for c in it: s.chars()
        invariant
            v@ == it.seq().take(it.index() as int),
    {
        v.push(c);
    }
    v
}

pub fn string_of(v: &[char]) -> (s: String)
    ensures
        s@ == v@,
{
    let mut s = String::new();
    let mut i: usize = 0;
    while i < v.len()
        invariant
            i <= v.len(),
            s@ == v@.take(i as int),
        decreases v.len() - i,
    {
        push_char(&mut s, v[i]);
        i = i + 1;
        assert(s@ =~= v@.take(i as int));
    }
    assert(v@.take(v.len() as int) =~= v@);
    s
}

pub fn string_from(s: &str) -> (r: String)
    ensures
        r@ == s@,
{
    let v = chars_of(s);
    string_of(v.as_slice())
}

pub fn copy_string(s: &String) -> (r: String)
    ensures
        r@ == s@,
{
    string_from(s.as_str())
}

pub fn subvec(v: &[char], from: usize, to: usize) -> (r: Vec<char>)
    requires
        from <= to <= v.len(),
    ensures
        r@ == v@.subrange(from as int, to as int),
{
    let mut r: Vec<char> = Vec::new();
    let mut i = from;
    while i < to
        invariant
            from <= i <= to <= v.len(),
            r@ == v@.subrange(from as int, i as int),
        decreases to - i,
    {
        r.push(v[i]);
        i = i + 1;
        assert(r@ =~= v@.subrange(from as int, i as int));
    }
    r
}

pub fn append_chars(s: &mut String, v: &[char])
    ensures
        final(s)@ == old(s)@ + v@,
{
    let mut i: usize = 0;
    while i < v.len()
        invariant
            i <= v.len(),
            s@ == old(s)@ + v@.take(i as int),
        decreases v.len() - i,
    {
        push_char(s, v[i]);
        i = i + 1;
        assert(s@ =~= old(s)@ + v@.take(i as int));
    }
    assert(v@.take(v.len() as int) =~= v@);
}

pub fn append_str(s: &mut String, t: &str)
    ensures
        final(s)@ == old(s)@ + t@,
{
    let v = chars_of(t);
    append_chars(s, v.as_slice());
}

pub fn chars_equal(a: &[char], b: &[char]) -> (r: bool)
    ensures
        r == (a@ == b@),
{
    if a.len() != b.len() {
        return false;
    }
    let mut i: usize = 0;
    while i < a.len()
        invariant
            a.len() == b.len(),
            i <= a.len(),
            forall|j: int| 0 <= j < i ==> a@[j] == b@[j],
        decreases a.len() - i,
    {
        if a[i] != b[i] {
            return false;
        }
        i = i + 1;
    }
    assert(a@ =~= b@);
    true
}

pub fn str_equal(a: &str, b: &str) -> (r: bool)
    ensures
        r == (a@ == b@),
{
    let x = chars_of(a);
    let y = chars_of(b);
    chars_equal(x.as_slice(), y.as_slice())
}

// ---------------------------------------------------------------------------
// Prefixes, suffixes and searching
// ---------------------------------------------------------------------------

pub open spec fn has_prefix(s: Seq<char>, p: Seq<char>) -> bool {
    p.len() <= s.len() && s.take(p.len() as int) == p
}

pub open spec fn has_suffix(s: Seq<char>, p: Seq<char>) -> bool {
    p.len() <= s.len() && s.skip(s.len() - p.len()) == p
}

pub fn starts_with(s: &[char], p: &[char]) -> (r: bool)
    ensures
        r == has_prefix(s@, p@),
{
    if p.len() > s.len() {
        return false;
    }
    let head = subvec(s, 0, p.len());
    assert(head@ =~= s@.take(p@.len() as int));
    chars_equal(head.as_slice(), p)
}

pub fn ends_with(s: &[char], p: &[char]) -> (r: bool)
    ensures
        r == has_suffix(s@, p@),
{
    if p.len() > s.len() {
        return false;
    }
    let tail = subvec(s, s.len() - p.len(), s.len());
    assert(tail@ =~= s@.skip(s@.len() - p@.len()));
    chars_equal(tail.as_slice(), p)
}

/// The first index at or after `i` holding `c`.
pub open spec fn find_char_from(s: Seq<char>, c: char, i: int) -> Option<int>
    decreases s.len() - i,
{
    if i < 0 || i >= s.len() {
        None
    } else if s[i] == c {
        Some(i)
    } else {
        find_char_from(s, c, i + 1)
    }
}

pub proof fn lemma_find_char_from(s: Seq<char>, c: char, i: int)
    requires
        0 <= i,
    ensures
        find_char_from(s, c, i) matches Some(k) ==> i <= k < s.len() && s[k] == c && forall|j: int|
            i <= j < k ==> s[j] != c,
        find_char_from(s, c, i) is None ==> forall|j: int| i <= j < s.len() ==> s[j] != c,
    decreases s.len() - i,
{
    if i < s.len() && s[i] != c {
        lemma_find_char_from(s, c, i + 1);
    }
}

/// A character that does not occur from `i` on is not found from there.
pub proof fn lemma_find_char_absent(s: Seq<char>, c: char, i: int)
    requires
        0 <= i,
        forall|j: int| i <= j < s.len() ==> s[j] != c,
    ensures
        find_char_from(s, c, i) is None,
    decreases s.len() - i,
{
    if i < s.len() {
        lemma_find_char_absent(s, c, i + 1);
    }
}

/// Text without the separator splits into itself alone.
pub proof fn lemma_split_without_separator(s: Seq<char>, sep: char)
    requires
        forall|j: int| 0 <= j < s.len() ==> s[j] != sep,
    ensures
        split_char(s, sep) == seq![s],
{
    lemma_find_char_absent(s, sep, 0);
    assert(s.subrange(0, s.len() as int) =~= s);
}

pub fn find_char(s: &[char], c: char, start: usize) -> (r: Option<usize>)
    ensures
        r matches Some(k) ==> find_char_from(s@, c, start as int) == Some(k as int),
        r is None ==> find_char_from(s@, c, start as int) is None,
{
    let mut i = start;
    while i < s.len()
        invariant
            start <= i,
            find_char_from(s@, c, start as int) == find_char_from(s@, c, i as int),
        decreases s.len() - i,
    {
        if s[i] == c {
            return Some(i);
        }
        i = i + 1;
    }
    None
}

/// The first index at or after `i` where `p` occurs in `s`.
pub open spec fn find_seq_from(s: Seq<char>, p: Seq<char>, i: int) -> Option<int>
    decreases s.len() + 1 - i,
{
    if i < 0 || i + p.len() > s.len() {
        None
    } else if s.subrange(i, i + p.len()) == p {
        Some(i)
    } else {
        find_seq_from(s, p, i + 1)
    }
}

pub proof fn lemma_find_seq_from(s: Seq<char>, p: Seq<char>, i: int)
    requires
        0 <= i,
    ensures
        find_seq_from(s, p, i) matches Some(k) ==> i <= k && k + p.len() <= s.len()
            && s.subrange(k, k + p.len()) == p,
    decreases s.len() + 1 - i,
{
    if i + p.len() <= s.len() && s.subrange(i, i + p.len()) != p {
        lemma_find_seq_from(s, p, i + 1);
    }
}

pub fn find_seq(s: &[char], p: &[char]) -> (r: Option<usize>)
    ensures
        r matches Some(k) ==> find_seq_from(s@, p@, 0) == Some(k as int),
        r is None ==> find_seq_from(s@, p@, 0) is None,
{
    if p.len() == 0 {
        assert(s@.subrange(0, 0) =~= p@);
        return Some(0);
    }
    let mut i: usize = 0;
    while p.len() <= s.len() - i
        invariant
            p@.len() > 0,
            i <= s.len(),
            find_seq_from(s@, p@, 0) == find_seq_from(s@, p@, i as int),
        decreases s.len() - i,
    {
        let window = subvec(s, i, i + p.len());
        if chars_equal(window.as_slice(), p) {
            return Some(i);
        }
        i = i + 1;
    }
    None
}

// ---------------------------------------------------------------------------
// Splitting
// ---------------------------------------------------------------------------

/// The pieces of `s` from index `start` on, split at every `sep` (as `str::split`).
pub open spec fn split_from(s: Seq<char>, sep: char, start: int) -> Seq<Seq<char>>
    decreases s.len() - start,
{
    if start < 0 || start > s.len() {
        seq![]
    } else {
        match find_char_from(s, sep, start) {
            None => seq![s.subrange(start, s.len() as int)],
            Some(k) => {
                if start <= k < s.len() {
                    seq![s.subrange(start, k)] + split_from(s, sep, k + 1)
                } else {
                    seq![]
                }
            },
        }
    }
}

/// The character sequences held by a sequence of character vectors.
pub open spec fn views(v: Seq<Vec<char>>) -> Seq<Seq<char>> {
    v.map_values(|x: Vec<char>| x@)
}

pub open spec fn split_char(s: Seq<char>, sep: char) -> Seq<Seq<char>> {
    split_from(s, sep, 0)
}

pub fn split_on(s: &[char], sep: char) -> (r: Vec<Vec<char>>)
    ensures
        views(r@) == split_char(s@, sep),
{
    let mut pieces: Vec<Vec<char>> = Vec::new();
    let mut start: usize = 0;
    loop
        invariant
            start <= s.len(),
            views(pieces@) + split_from(s@, sep, start as int) == split_char(s@, sep),
        decreases s.len() - start,
    {
        proof {
            lemma_find_char_from(s@, sep, start as int);
        }
        match find_char(s, sep, start) {
            None => {
                let last = subvec(s, start, s.len());
                let ghost before = views(pieces@);
                pieces.push(last);
                assert(views(pieces@) =~= before.push(last@));
                assert(split_from(s@, sep, start as int) =~= seq![last@]);
                assert(views(pieces@) =~= before + split_from(s@, sep, start as int));
                return pieces;
            },
            Some(k) => {
                let piece = subvec(s, start, k);
                let ghost before = views(pieces@);
                pieces.push(piece);
                assert(views(pieces@) =~= before.push(piece@));
                assert(split_from(s@, sep, start as int) =~= seq![piece@] + split_from(
                    s@,
                    sep,
                    k + 1,
                ));
                assert(views(pieces@) + split_from(s@, sep, k + 1) =~= before + split_from(
                    s@,
                    sep,
                    start as int,
                ));
                start = k + 1;
            },
        }
    }
}

pub proof fn lemma_split_nonempty(s: Seq<char>, sep: char, start: int)
    requires
        0 <= start <= s.len(),
    ensures
        split_from(s, sep, start).len() >= 1,
{
    lemma_find_char_from(s, sep, start);
}

/// Searching past a prefix finds what searching the rest finds, shifted.
proof fn lemma_find_char_shift(t: Seq<char>, s: Seq<char>, c: char, k: int)
    requires
        0 <= k <= s.len(),
    ensures
        find_char_from(t + s, c, t.len() + k) == match find_char_from(s, c, k) {
            Some(i) => Some(i + t.len()),
            None => None::<int>,
        },
    decreases s.len() - k,
{
    if k < s.len() {
        assert((t + s)[t.len() + k] == s[k]);
        if s[k] != c {
            lemma_find_char_shift(t, s, c, k + 1);
        }
    }
}

/// Splitting past a prefix splits the rest.
proof fn lemma_split_shift(t: Seq<char>, s: Seq<char>, sep: char, k: int)
    requires
        0 <= k <= s.len(),
    ensures
        split_from(t + s, sep, t.len() + k) == split_from(s, sep, k),
    decreases s.len() - k,
{
    lemma_find_char_shift(t, s, sep, k);
    lemma_find_char_from(s, sep, k);
    let ts = t + s;
    match find_char_from(s, sep, k) {
        None => {
            assert(ts.subrange(t.len() + k, ts.len() as int) =~= s.subrange(k, s.len() as int));
        },
        Some(i) => {
            assert(ts.subrange(t.len() + k, t.len() + i) =~= s.subrange(k, i));
            lemma_split_shift(t, s, sep, i + 1);
        },
    }
}

/// A piece without the separator, the separator, then more: the piece is the
/// first part and the rest splits on.
pub proof fn lemma_split_after_piece(a: Seq<char>, sep: char, b: Seq<char>)
    requires
        forall|j: int| 0 <= j < a.len() ==> a[j] != sep,
    ensures
        split_char(a + seq![sep] + b, sep) == seq![a] + split_char(b, sep),
{
    let s = a + seq![sep] + b;
    lemma_find_char_from(s, sep, 0);
    assert(find_char_from(s, sep, 0) == Some(a.len() as int)) by {
        match find_char_from(s, sep, 0) {
            Some(k) => {
                if k < a.len() {
                    assert(s[k] == a[k]);
                }
                if k > a.len() {
                    assert(s[a.len() as int] == sep);
                }
            },
            None => {
                assert(s[a.len() as int] == sep);
            },
        }
    }
    assert(s.subrange(0, a.len() as int) =~= a);
    assert(s =~= (a + seq![sep]) + b);
    lemma_split_shift(a + seq![sep], b, sep, 0);
}

/// Joining a sequence of two or more items: the first, the separator, then
/// the rest joined.
pub proof fn lemma_join_front(items: Seq<Seq<char>>, sep: Seq<char>)
    requires
        items.len() >= 2,
    ensures
        join(items, sep) == items[0] + sep + join(items.drop_first(), sep),
    decreases items.len(),
{
    if items.len() > 2 {
        let dl = items.drop_last();
        let df = items.drop_first();
        lemma_join_front(dl, sep);
        assert(dl.drop_first() =~= df.drop_last());
        assert(df.last() == items.last());
        assert(dl[0] == items[0]);
        assert(join(df, sep) == join(df.drop_last(), sep) + sep + df.last());
        assert(join(items, sep) == join(dl, sep) + sep + items.last());
        assert(join(items, sep) =~= items[0] + sep + join(df, sep));
    } else {
        assert(items.drop_first() =~= seq![items[1]]);
        assert(items.drop_last() =~= seq![items[0]]);
        assert(join(items.drop_last(), sep) == items[0]);
        assert(join(items.drop_first(), sep) == items[1]);
    }
}

/// Pieces without the separator, joined by it, split back into the pieces.
pub proof fn lemma_split_join(items: Seq<Seq<char>>, sep: char)
    requires
        items.len() >= 1,
        forall|i: int, j: int|
            0 <= i < items.len() && 0 <= j < items[i].len() ==> #[trigger] items[i][j] != sep,
    ensures
        split_char(join(items, seq![sep]), sep) == items,
    decreases items.len(),
{
    if items.len() == 1 {
        lemma_split_without_separator(items[0], sep);
        assert(seq![items[0]] =~= items);
    } else {
        lemma_join_front(items, seq![sep]);
        let rest = items.drop_first();
        lemma_split_join(rest, sep);
        assert forall|j: int| 0 <= j < items[0].len() implies items[0][j] != sep by {
            assert(items[0][j] != sep);
        }
        lemma_split_after_piece(items[0], sep, join(rest, seq![sep]));
        assert(seq![items[0]] + rest =~= items);
    }
}

/// No piece of a split holds the separator.
pub proof fn lemma_split_pieces_lack_separator(s: Seq<char>, sep: char, start: int)
    requires
        0 <= start <= s.len(),
    ensures
        forall|i: int, j: int|
            0 <= i < split_from(s, sep, start).len() && 0 <= j < split_from(
                s,
                sep,
                start,
            )[i].len() ==> #[trigger] split_from(s, sep, start)[i][j] != sep,
    decreases s.len() - start,
{
    lemma_find_char_from(s, sep, start);
    match find_char_from(s, sep, start) {
        None => {},
        Some(k) => {
            lemma_split_pieces_lack_separator(s, sep, k + 1);
            let rest = split_from(s, sep, k + 1);
            let all = split_from(s, sep, start);
            assert(all == seq![s.subrange(start, k)] + rest);
            assert forall|i: int, j: int| 0 <= i < all.len() && 0 <= j < all[i].len() implies #[trigger] all[i][j] != sep by {
                if i == 0 {
                    assert(all[0][j] == s[start + j]);
                } else {
                    assert(all[i] == rest[i - 1]);
                }
            }
        },
    }
}

/// A line without its final carriage return.
pub open spec fn strip_cr(l: Seq<char>) -> Seq<char> {
    if l.len() > 0 && l.last() == '\r' {
        l.drop_last()
    } else {
        l
    }
}

/// The lines of a text (as `str::lines`): split at `\n`, each terminated line
/// without a final `\r`, and no empty line after a final line ending.
pub open spec fn text_lines(s: Seq<char>) -> Seq<Seq<char>> {
    let p = split_char(s, '\n');
    let body = p.drop_last().map_values(|l: Seq<char>| strip_cr(l));
    if p.last().len() == 0 {
        body
    } else {
        body.push(p.last())
    }
}

pub fn lines_of(s: &[char]) -> (r: Vec<Vec<char>>)
    ensures
        views(r@) == text_lines(s@),
{
    let pieces = split_on(s, '\n');
    proof {
        lemma_split_nonempty(s@, '\n', 0);
    }
    let ghost p = split_char(s@, '\n');
    let n = pieces.len();
    let mut lines: Vec<Vec<char>> = Vec::new();
    let mut i: usize = 0;
    while i + 1 < n
        invariant
            n == pieces.len(),
            n >= 1,
            views(pieces@) == p,
            i < n,
            views(lines@) == p.take(i as int).map_values(|l: Seq<char>| strip_cr(l)),
        decreases n - i,
    {
        let piece = &pieces[i];
        assert(piece@ == p[i as int]);
        let line = if piece.len() > 0 && piece[piece.len() - 1] == '\r' {
            subvec(piece.as_slice(), 0, piece.len() - 1)
        } else {
            subvec(piece.as_slice(), 0, piece.len())
        };
        assert(line@ =~= strip_cr(p[i as int]));
        let ghost prev = lines@;
        lines.push(line);
        assert(views(lines@) =~= views(prev).push(line@));
        i = i + 1;
        assert(p.take(i as int).map_values(|l: Seq<char>| strip_cr(l)) =~= p.take(i - 1).map_values(
            |l: Seq<char>| strip_cr(l),
        ).push(strip_cr(p[i - 1])));
    }
    assert(p.take(i as int) =~= p.drop_last());
    let last = &pieces[n - 1];
    assert(last@ == p.last());
    if last.len() > 0 {
        let ghost prev = lines@;
        let copy = subvec(last.as_slice(), 0, last.len());
        assert(copy@ =~= p.last());
        lines.push(copy);
        assert(views(lines@) =~= views(prev).push(p.last()));
    }
    lines
}

// ---------------------------------------------------------------------------
// Case and joining
// ---------------------------------------------------------------------------

pub open spec fn lower_seq(s: Seq<char>) -> Seq<char> {
    s.map_values(|c: char| ascii_lower(c))
}

pub fn lower_chars(s: &[char]) -> (r: Vec<char>)
    ensures
        r@ == lower_seq(s@),
{
    let mut r: Vec<char> = Vec::new();
    let mut i: usize = 0;
    while i < s.len()
        invariant
            i <= s.len(),
            r@ == lower_seq(s@.take(i as int)),
        decreases s.len() - i,
    {
        r.push(to_ascii_lower(s[i]));
        i = i + 1;
        assert(r@ =~= lower_seq(s@.take(i as int)));
    }
    assert(s@.take(s.len() as int) =~= s@);
    r
}

/// The items separated by `sep` (as `[String]::join`).
pub open spec fn join(items: Seq<Seq<char>>, sep: Seq<char>) -> Seq<char>
    decreases items.len(),
{
    if items.len() == 0 {
        Seq::empty()
    } else if items.len() == 1 {
        items[0]
    } else {
        join(items.drop_last(), sep) + sep + items.last()
    }
}

pub fn join_strings(items: &Vec<String>, sep: &str) -> (r: String)
    ensures
        r@ == join(items@.map_values(|s: String| s@), sep@),
{
    let ghost all = items@.map_values(|s: String| s@);
    let mut r = String::new();
    let mut i: usize = 0;
    while i < items.len()
        invariant
            i <= items.len(),
            all == items@.map_values(|s: String| s@),
            r@ == join(all.take(i as int), sep@),
        decreases items.len() - i,
    {
        assert(all[i as int] == items[i as int]@);
        if i > 0 {
            append_str(&mut r, sep);
        }
        append_str(&mut r, items[i].as_str());
        i = i + 1;
        assert(all.take(i as int).drop_last() =~= all.take(i - 1));
        if i == 1 {
            assert(r@ =~= all.take(1)[0]);
        }
    }
    assert(all.take(items.len() as int) =~= all);
    r
}

// ---------------------------------------------------------------------------
// Trimming by character class
// ---------------------------------------------------------------------------

/// The classes of characters that the trimming operations strip.
#[derive(Clone, Copy)]
pub enum CharClass {
    /// Unicode `White_Space`.
    Whitespace,
    /// The separators of `split_ascii_whitespace`.
    AsciiWhitespace,
    /// Anything but an ASCII letter, digit or `-`.
    NotNameChar,
    /// `-` and `.`.
    DashOrDot,
    /// `.`.
    Dot,
}

impl CharClass {
    pub open spec fn holds(self, c: char) -> bool {
        match self {
            CharClass::Whitespace => is_whitespace(c),
            CharClass::AsciiWhitespace => is_ascii_whitespace(c),
            CharClass::NotNameChar => !is_ascii_alnum(c) && c != '-',
            CharClass::DashOrDot => c == '-' || c == '.',
            CharClass::Dot => c == '.',
        }
    }

    pub fn test(self, c: char) -> (r: bool)
        ensures
            r == self.holds(c),
    {
        match self {
            CharClass::Whitespace => whitespace(c),
            CharClass::AsciiWhitespace => ascii_whitespace(c),
            CharClass::NotNameChar => !ascii_alnum(c) && c != '-',
            CharClass::DashOrDot => c == '-' || c == '.',
            CharClass::Dot => c == '.',
        }
    }
}

/// `s` without its leading characters of class `k`.
pub open spec fn skip_class(s: Seq<char>, k: CharClass) -> Seq<char>
    decreases s.len(),
{
    if s.len() > 0 && k.holds(s[0]) {
        skip_class(s.drop_first(), k)
    } else {
        s
    }
}

/// The longest prefix of `s` made of characters outside class `k`.
pub open spec fn take_outside_class(s: Seq<char>, k: CharClass) -> Seq<char>
    decreases s.len(),
{
    if s.len() > 0 && !k.holds(s[0]) {
        seq![s[0]] + take_outside_class(s.drop_first(), k)
    } else {
        seq![]
    }
}

/// `s` without its trailing characters of class `k`.
pub open spec fn trim_end_class(s: Seq<char>, k: CharClass) -> Seq<char>
    decreases s.len(),
{
    if s.len() > 0 && k.holds(s.last()) {
        trim_end_class(s.drop_last(), k)
    } else {
        s
    }
}

/// Skipping leading characters of a class leaves a suffix that does not start
/// with one.
pub proof fn lemma_skip_class_suffix(s: Seq<char>, k: CharClass)
    ensures
        skip_class(s, k).len() <= s.len(),
        skip_class(s, k) == s.skip(s.len() - skip_class(s, k).len()),
        skip_class(s, k).len() > 0 ==> !k.holds(skip_class(s, k)[0]),
    decreases s.len(),
{
    if s.len() > 0 && k.holds(s[0]) {
        lemma_skip_class_suffix(s.drop_first(), k);
        let r = skip_class(s.drop_first(), k);
        assert(s.drop_first().skip(s.drop_first().len() - r.len()) =~= s.skip(s.len() - r.len()));
    } else {
        assert(s.skip(0) =~= s);
    }
}

/// Trimming trailing characters of a class leaves a prefix that does not end
/// with one.
pub proof fn lemma_trim_end_class_prefix(s: Seq<char>, k: CharClass)
    ensures
        trim_end_class(s, k).len() <= s.len(),
        trim_end_class(s, k) == s.take(trim_end_class(s, k).len() as int),
        trim_end_class(s, k).len() > 0 ==> !k.holds(trim_end_class(s, k).last()),
    decreases s.len(),
{
    if s.len() > 0 && k.holds(s.last()) {
        lemma_trim_end_class_prefix(s.drop_last(), k);
        let r = trim_end_class(s.drop_last(), k);
        assert(s.drop_last().take(r.len() as int) =~= s.take(r.len() as int));
    } else {
        assert(s.take(s.len() as int) =~= s);
    }
}

/// Trimming a class from both ends keeps characters of `s` only, and leaves
/// neither end in the class.
pub proof fn lemma_trim_class_inner(s: Seq<char>, k: CharClass)
    ensures
        forall|j: int|
            0 <= j < trim_class(s, k).len() ==> s.contains(#[trigger] trim_class(s, k)[j]),
        trim_class(s, k).len() > 0 ==> !k.holds(trim_class(s, k)[0]) && !k.holds(
            trim_class(s, k).last(),
        ),
{
    let a = skip_class(s, k);
    lemma_skip_class_suffix(s, k);
    lemma_trim_end_class_prefix(a, k);
    let t = trim_class(s, k);
    assert forall|j: int| 0 <= j < t.len() implies s.contains(#[trigger] t[j]) by {
        assert(t[j] == a[j]);
        assert(a[j] == s[j + s.len() - a.len()]);
    }
    if t.len() > 0 {
        assert(t[0] == a[0]);
    }
}

/// `s` without leading and trailing characters of class `k` (as `str::trim_matches`).
pub open spec fn trim_class(s: Seq<char>, k: CharClass) -> Seq<char> {
    trim_end_class(skip_class(s, k), k)
}

pub fn skip_class_exec(s: &[char], k: CharClass) -> (r: Vec<char>)
    ensures
        r@ == skip_class(s@, k),
{
    let mut i: usize = 0;
    assert(s@.skip(0) =~= s@);
    while i < s.len() && k.test(s[i])
        invariant
            i <= s.len(),
            skip_class(s@, k) == skip_class(s@.skip(i as int), k),
        decreases s.len() - i,
    {
        assert(s@.skip(i as int).drop_first() =~= s@.skip(i + 1));
        i = i + 1;
    }
    let r = subvec(s, i, s.len());
    assert(r@ =~= s@.skip(i as int));
    r
}

pub fn take_outside_class_exec(s: &[char], k: CharClass) -> (r: Vec<char>)
    ensures
        r@ == take_outside_class(s@, k),
{
    let mut i: usize = 0;
    assert(s@.skip(0) =~= s@);
    assert(s@.take(0) + take_outside_class(s@, k) =~= take_outside_class(s@, k));
    while i < s.len() && !k.test(s[i])
        invariant
            i <= s.len(),
            take_outside_class(s@, k) == s@.take(i as int) + take_outside_class(
                s@.skip(i as int),
                k,
            ),
        decreases s.len() - i,
    {
        assert(s@.skip(i as int).drop_first() =~= s@.skip(i + 1));
        assert(s@.take(i + 1) =~= s@.take(i as int) + seq![s@[i as int]]);
        i = i + 1;
    }
    let r = subvec(s, 0, i);
    assert(r@ =~= s@.take(i as int));
    assert(r@ + take_outside_class(s@.skip(i as int), k) =~= r@);
    r
}

pub fn trim_end_class_exec(s: &[char], k: CharClass) -> (r: Vec<char>)
    ensures
        r@ == trim_end_class(s@, k),
{
    let mut e: usize = s.len();
    assert(s@.take(s@.len() as int) =~= s@);
    while e > 0 && k.test(s[e - 1])
        invariant
            e <= s.len(),
            trim_end_class(s@, k) == trim_end_class(s@.take(e as int), k),
        decreases e,
    {
        assert(s@.take(e as int).drop_last() =~= s@.take(e - 1));
        e = e - 1;
    }
    let r = subvec(s, 0, e);
    assert(r@ =~= s@.take(e as int));
    r
}

pub fn trim_class_exec(s: &[char], k: CharClass) -> (r: Vec<char>)
    ensures
        r@ == trim_class(s@, k),
{
    let a = skip_class_exec(s, k);
    trim_end_class_exec(a.as_slice(), k)
}

// ---------------------------------------------------------------------------
// Lexicographic order
// ---------------------------------------------------------------------------

/// Strict lexicographic order on character sequences: the order of `str`
/// and `String` (byte order of UTF-8 coincides with code-point order).
pub open spec fn lex_lt(a: Seq<char>, b: Seq<char>) -> bool
    decreases a.len(),
{
    if a.len() == 0 {
        b.len() > 0
    } else if b.len() == 0 {
        false
    } else if a[0] < b[0] {
        true
    } else if a[0] == b[0] {
        lex_lt(a.drop_first(), b.drop_first())
    } else {
        false
    }
}

pub proof fn lemma_lex_irreflexive(a: Seq<char>)
    ensures
        !lex_lt(a, a),
    decreases a.len(),
{
    if a.len() > 0 {
        lemma_lex_irreflexive(a.drop_first());
    }
}

pub proof fn lemma_lex_asymmetric(a: Seq<char>, b: Seq<char>)
    ensures
        lex_lt(a, b) ==> !lex_lt(b, a),
    decreases a.len(),
{
    if a.len() > 0 && b.len() > 0 && a[0] == b[0] {
        lemma_lex_asymmetric(a.drop_first(), b.drop_first());
    }
}

pub proof fn lemma_lex_transitive(a: Seq<char>, b: Seq<char>, c: Seq<char>)
    requires
        lex_lt(a, b),
        lex_lt(b, c),
    ensures
        lex_lt(a, c),
    decreases a.len(),
{
    if a.len() > 0 && b.len() > 0 && c.len() > 0 && a[0] == b[0] && b[0] == c[0] {
        lemma_lex_transitive(a.drop_first(), b.drop_first(), c.drop_first());
    }
}

pub proof fn lemma_lex_total(a: Seq<char>, b: Seq<char>)
    ensures
        a != b ==> lex_lt(a, b) || lex_lt(b, a),
    decreases a.len(),
{
    if a.len() > 0 && b.len() > 0 && a[0] == b[0] {
        lemma_lex_total(a.drop_first(), b.drop_first());
        if a.drop_first() == b.drop_first() {
            assert(a =~= seq![a[0]] + a.drop_first());
            assert(b =~= seq![b[0]] + b.drop_first());
        }
    } else if a.len() == 0 && b.len() == 0 {
        assert(a =~= b);
    }
}

pub fn lex_less(a: &[char], b: &[char]) -> (r: bool)
    ensures
        r == lex_lt(a@, b@),
{
    let mut i: usize = 0;
    assert(a@.skip(0) =~= a@);
    assert(b@.skip(0) =~= b@);
    while i < a.len() && i < b.len() && a[i] == b[i]
        invariant
            i <= a.len(),
            i <= b.len(),
            lex_lt(a@, b@) == lex_lt(a@.skip(i as int), b@.skip(i as int)),
        decreases a.len() - i,
    {
        assert(a@.skip(i as int).drop_first() =~= a@.skip(i + 1));
        assert(b@.skip(i as int).drop_first() =~= b@.skip(i + 1));
        i = i + 1;
    }
    if i == a.len() {
        i < b.len()
    } else if i == b.len() {
        false
    } else {
        a[i] < b[i]
    }
}

} // verus!
