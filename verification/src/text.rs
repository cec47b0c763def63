//! Text over `Seq<char>`: numbers in and out, lines, words and substrings.
use vstd::prelude::*;

verus! {

/// `String::push` appends one character.
pub assume_specification[ String::push ](s: &mut String, c: char)
    ensures
        final(s)@ == old(s)@.push(c),
;

// ---------------------------------------------------------------------------
// Characters

/// The character of a hexadecimal digit below ten or, lower case, below sixteen.
pub open spec fn digit_char(d: int) -> char {
    if d == 0 { '0' } else if d == 1 { '1' } else if d == 2 { '2' } else if d == 3 { '3' }
    else if d == 4 { '4' } else if d == 5 { '5' } else if d == 6 { '6' } else if d == 7 { '7' }
    else if d == 8 { '8' } else if d == 9 { '9' } else if d == 10 { 'a' } else if d == 11 { 'b' }
    else if d == 12 { 'c' } else if d == 13 { 'd' } else if d == 14 { 'e' } else { 'f' }
}

/// The upper-case counterpart of `digit_char`.
pub open spec fn digit_char_upper(d: int) -> char {
    if d == 10 { 'A' } else if d == 11 { 'B' } else if d == 12 { 'C' } else if d == 13 { 'D' }
    else if d == 14 { 'E' } else if d == 15 { 'F' } else { digit_char(d) }
}

/// Code point of a character.
pub open spec fn code(c: char) -> int {
    c as u32 as int
}

/// `White_Space` of the Unicode character database.
pub open spec fn is_space(c: char) -> bool {
    ||| 9 <= code(c) <= 13
    ||| code(c) == 0x20
    ||| code(c) == 0x85
    ||| code(c) == 0xA0
    ||| code(c) == 0x1680
    ||| 0x2000 <= code(c) <= 0x200A
    ||| code(c) == 0x2028
    ||| code(c) == 0x2029
    ||| code(c) == 0x202F
    ||| code(c) == 0x205F
    ||| code(c) == 0x3000
}

/// Value of a digit character in `radix` (at most sixteen), either case.
pub open spec fn digit_value(c: char, radix: int) -> Option<int> {
    let v = if 48 <= code(c) <= 57 { code(c) - 48 }
        else if 97 <= code(c) <= 102 { code(c) - 87 }
        else if 65 <= code(c) <= 70 { code(c) - 55 }
        else { 99 };
    if v < radix { Some(v) } else { None }
}

pub fn space(c: char) -> (r: bool)
    ensures
        r == is_space(c),
{
    let k: u32 = c as u32;
    (9 <= k && k <= 13) || k == 0x20 || k == 0x85 || k == 0xA0 || k == 0x1680 || (0x2000 <= k && k
        <= 0x200A) || k == 0x2028 || k == 0x2029 || k == 0x202F || k == 0x205F || k == 0x3000
}

pub fn digit(c: char, radix: u32) -> (r: Option<u32>)
    requires
        radix <= 16,
    ensures
        r is Some <==> digit_value(c, radix as int) is Some,
        r is Some ==> digit_value(c, radix as int) == Some(r->0 as int),
{
    let k: u32 = c as u32;
    let v: u32 = if 48 <= k && k <= 57 {
        k - 48
    } else if 97 <= k && k <= 102 {
        k - 87
    } else if 65 <= k && k <= 70 {
        k - 55
    } else {
        99
    };
    if v < radix {
        Some(v)
    } else {
        None
    }
}

fn to_digit_char(d: u32) -> (c: char)
    requires
        d < 16,
    ensures
        c == digit_char(d as int),
{
    match d {
        0 => '0', 1 => '1', 2 => '2', 3 => '3', 4 => '4', 5 => '5', 6 => '6', 7 => '7',
        8 => '8', 9 => '9', 10 => 'a', 11 => 'b', 12 => 'c', 13 => 'd', 14 => 'e', _ => 'f',
    }
}

fn to_digit_char_upper(d: u32) -> (c: char)
    requires
        d < 16,
    ensures
        c == digit_char_upper(d as int),
{
    match d {
        10 => 'A', 11 => 'B', 12 => 'C', 13 => 'D', 14 => 'E', 15 => 'F', _ => to_digit_char(d),
    }
}

// ---------------------------------------------------------------------------
// Numbers written out

/// `n` in decimal.
pub open spec fn dec(n: nat) -> Seq<char>
    decreases n,
{
    if n < 10 {
        seq![digit_char(n as int)]
    } else {
        dec(n / 10).push(digit_char((n % 10) as int))
    }
}

/// `i` in decimal, with a sign when negative.
pub open spec fn dec_int(i: int) -> Seq<char> {
    if i < 0 {
        seq!['-'] + dec((-i) as nat)
    } else {
        dec(i as nat)
    }
}

/// `n` in lower-case hexadecimal.
pub open spec fn hex(n: nat) -> Seq<char>
    decreases n,
{
    if n < 16 {
        seq![digit_char(n as int)]
    } else {
        hex(n / 16).push(digit_char((n % 16) as int))
    }
}

/// `n` in upper-case hexadecimal.
pub open spec fn hex_upper(n: nat) -> Seq<char>
    decreases n,
{
    if n < 16 {
        seq![digit_char_upper(n as int)]
    } else {
        hex_upper(n / 16).push(digit_char_upper((n % 16) as int))
    }
}

/// `k` copies of one character.
pub open spec fn repeat(c: char, k: nat) -> Seq<char> {
    Seq::new(k, |i: int| c)
}

/// `s` with as many `c` in front as it is short of `width`.
pub open spec fn pad_left(s: Seq<char>, c: char, width: nat) -> Seq<char> {
    if s.len() < width {
        repeat(c, (width - s.len()) as nat) + s
    } else {
        s
    }
}

/// `s` with as many `c` behind as it is short of `width`.
pub open spec fn pad_right(s: Seq<char>, c: char, width: nat) -> Seq<char> {
    if s.len() < width {
        s + repeat(c, (width - s.len()) as nat)
    } else {
        s
    }
}

/// `n` in decimal.
pub fn decimal(n: u64) -> (r: String)
    ensures
        r@ == dec(n as nat),
    decreases n,
{
    if n < 10 {
        let mut r = String::new();
        r.push(to_digit_char(n as u32));
        assert(r@ =~= seq![digit_char(n as int)]);
        r
    } else {
        let mut r = decimal(n / 10);
        r.push(to_digit_char((n % 10) as u32));
        r
    }
}

/// `i` in decimal, with a sign when negative.
pub fn decimal_signed(i: i64) -> (r: String)
    ensures
        r@ == dec_int(i as int),
{
    if i < 0 {
        let mut r = String::new();
        r.push('-');
        assert(r@ =~= seq!['-']);
        let n: u64 = if i == i64::MIN {
            9223372036854775808
        } else {
            (-i) as u64
        };
        r.append(decimal(n).as_str());
        r
    } else {
        decimal(i as u64)
    }
}

/// `n` in lower-case hexadecimal.
pub fn hexadecimal(n: u64) -> (r: String)
    ensures
        r@ == hex(n as nat),
    decreases n,
{
    if n < 16 {
        let mut r = String::new();
        r.push(to_digit_char(n as u32));
        assert(r@ =~= seq![digit_char(n as int)]);
        r
    } else {
        let mut r = hexadecimal(n / 16);
        r.push(to_digit_char((n % 16) as u32));
        r
    }
}

/// `n` in upper-case hexadecimal.
pub fn hexadecimal_upper(n: u64) -> (r: String)
    ensures
        r@ == hex_upper(n as nat),
    decreases n,
{
    if n < 16 {
        let mut r = String::new();
        r.push(to_digit_char_upper(n as u32));
        assert(r@ =~= seq![digit_char_upper(n as int)]);
        r
    } else {
        let mut r = hexadecimal_upper(n / 16);
        r.push(to_digit_char_upper((n % 16) as u32));
        r
    }
}

/// `k` copies of one character.
pub fn repeated(c: char, k: usize) -> (r: String)
    ensures
        r@ == repeat(c, k as nat),
{
    let mut r = String::new();
    let mut i: usize = 0;
    while i < k
        invariant
            i <= k,
            r@ == repeat(c, i as nat),
        decreases k - i,
    {
        r.push(c);
        i += 1;
        assert(r@ =~= repeat(c, i as nat));
    }
    assert(r@ =~= repeat(c, k as nat));
    r
}

/// `s` with as many `c` in front as it is short of `width`.
pub fn padded_left(s: &str, c: char, width: usize) -> (r: String)
    ensures
        r@ == pad_left(s@, c, width as nat),
{
    let n: usize = s.unicode_len();
    if n < width {
        let mut r = repeated(c, width - n);
        r.append(s);
        r
    } else {
        s.to_owned()
    }
}

/// `s` with as many `c` behind as it is short of `width`.
pub fn padded_right(s: &str, c: char, width: usize) -> (r: String)
    ensures
        r@ == pad_right(s@, c, width as nat),
{
    let n: usize = s.unicode_len();
    let mut r = s.to_owned();
    if n < width {
        r.append(repeated(c, width - n).as_str());
    }
    r
}

/// `n` in lower-case hexadecimal, at least `width` digits.
pub open spec fn hex_pad(n: nat, width: nat) -> Seq<char> {
    pad_left(hex(n), '0', width)
}

/// `n` in upper-case hexadecimal, at least `width` digits.
pub open spec fn hex_upper_pad(n: nat, width: nat) -> Seq<char> {
    pad_left(hex_upper(n), '0', width)
}

/// `n` in lower-case hexadecimal, at least `width` digits.
pub fn hexadecimal_padded(n: u64, width: usize) -> (r: String)
    ensures
        r@ == hex_pad(n as nat, width as nat),
{
    padded_left(hexadecimal(n).as_str(), '0', width)
}

/// `n` in upper-case hexadecimal, at least `width` digits.
pub fn hexadecimal_upper_padded(n: u64, width: usize) -> (r: String)
    ensures
        r@ == hex_upper_pad(n as nat, width as nat),
{
    padded_left(hexadecimal_upper(n).as_str(), '0', width)
}

/// Two texts in a row.
pub fn join2(a: &str, b: &str) -> (r: String)
    ensures
        r@ == a@ + b@,
{
    let mut r = a.to_owned();
    r.append(b);
    r
}

/// Three texts in a row.
pub fn join3(a: &str, b: &str, c: &str) -> (r: String)
    ensures
        r@ == a@ + b@ + c@,
{
    let mut r = a.to_owned();
    r.append(b);
    r.append(c);
    r
}

// ---------------------------------------------------------------------------
// Comparison and search

/// The characters of a text.
pub fn chars_of(s: &str) -> (r: Vec<char>)
    ensures
        r@ == s@,
{
    let mut r: Vec<char> = Vec::new();
    for c in it: s.chars()
        invariant
            r@ == it.seq().take(it.index() as int),
            it.seq() == s@,
    {
        r.push(c);
        assert(r@ =~= it.seq().take(it.index() + 1));
    }
    assert(r@ =~= s@);
    r
}

/// The text of some characters.
pub fn string_of(v: &Vec<char>) -> (r: String)
    ensures
        r@ == v@,
{
    let mut r = String::new();
    let mut i: usize = 0;
    assert(r@ =~= v@.take(0));
    while i < v.len()
        invariant
            i <= v@.len(),
            r@ == v@.take(i as int),
        decreases v@.len() - i,
    {
        r.push(v[i]);
        i += 1;
        assert(r@ =~= v@.take(i as int));
    }
    assert(r@ =~= v@);
    r
}

/// Whether two texts hold the same characters.
pub fn same(a: &str, b: &str) -> (r: bool)
    ensures
        r == (a@ == b@),
{
    let x = chars_of(a);
    let y = chars_of(b);
    if x.len() != y.len() {
        return false;
    }
    let mut i: usize = 0;
    while i < x.len()
        invariant
            x@ == a@,
            y@ == b@,
            x@.len() == y@.len(),
            i <= x@.len(),
            forall|j: int| 0 <= j < i ==> x@[j] == y@[j],
        decreases x@.len() - i,
    {
        if x[i] != y[i] {
            return false;
        }
        i += 1;
    }
    assert(a@ =~= b@);
    true
}

/// `pat` stands in `s` at position `i`.
pub open spec fn occurs_at(s: Seq<char>, pat: Seq<char>, i: int) -> bool {
    0 <= i && i + pat.len() <= s.len() && s.subrange(i, i + pat.len()) == pat
}

/// `pat` stands somewhere in `s`.
pub open spec fn occurs(s: Seq<char>, pat: Seq<char>) -> bool {
    exists|i: int| occurs_at(s, pat, i)
}

/// `s` begins with `pat`.
pub open spec fn begins(s: Seq<char>, pat: Seq<char>) -> bool {
    occurs_at(s, pat, 0)
}

/// `s` ends with `pat`.
pub open spec fn ends(s: Seq<char>, pat: Seq<char>) -> bool {
    occurs_at(s, pat, s.len() - pat.len())
}

/// What follows the first `n` characters.
pub open spec fn after(s: Seq<char>, n: int) -> Seq<char> {
    s.subrange(n, s.len() as int)
}

fn match_at(s: &Vec<char>, pat: &Vec<char>, i: usize) -> (r: bool)
    requires
        i + pat@.len() <= s@.len(),
    ensures
        r == occurs_at(s@, pat@, i as int),
{
    let n: usize = s.len();
    let mut j: usize = 0;
    while j < pat.len()
        invariant
            n == s@.len(),
            i + pat@.len() <= n,
            j <= pat@.len(),
            forall|k: int| 0 <= k < j ==> s@[i + k] == pat@[k],
        decreases pat@.len() - j,
    {
        if s[i + j] != pat[j] {
            assert(s@.subrange(i as int, i + pat@.len())[j as int] != pat@[j as int]);
            return false;
        }
        j += 1;
    }
    assert(s@.subrange(i as int, i + pat@.len()) =~= pat@);
    true
}

/// The first place at which `pat` stands in `s`.
pub fn find(s: &str, pat: &str) -> (r: Option<usize>)
    ensures
        match r {
            Some(i) => occurs_at(s@, pat@, i as int) && forall|j: int|
                0 <= j < i ==> !occurs_at(s@, pat@, j),
            None => !occurs(s@, pat@),
        },
{
    let x = chars_of(s);
    let y = chars_of(pat);
    let mut i: usize = 0;
    while i < x.len() && y.len() <= x.len() - i
        invariant
            x@ == s@,
            y@ == pat@,
            i <= x@.len(),
            forall|j: int| 0 <= j < i ==> !occurs_at(s@, pat@, j),
        decreases x@.len() - i,
    {
        if match_at(&x, &y, i) {
            return Some(i);
        }
        i += 1;
    }
    if y.len() == 0 {
        assert(s@.subrange(i as int, i + 0) =~= pat@);
        return Some(i);
    }
    None
}

/// Whether `pat` stands somewhere in `s`.
pub fn contains(s: &str, pat: &str) -> (r: bool)
    ensures
        r == occurs(s@, pat@),
{
    find(s, pat).is_some()
}

/// Whether `s` begins with `pat`.
pub fn starts_with(s: &str, pat: &str) -> (r: bool)
    ensures
        r == begins(s@, pat@),
{
    let x = chars_of(s);
    let y = chars_of(pat);
    y.len() <= x.len() && match_at(&x, &y, 0)
}

/// Whether `s` ends with `pat`.
pub fn ends_with(s: &str, pat: &str) -> (r: bool)
    ensures
        r == ends(s@, pat@),
{
    let x = chars_of(s);
    let y = chars_of(pat);
    y.len() <= x.len() && match_at(&x, &y, x.len() - y.len())
}

/// `s` without `pat` in front, where it begins with it.
pub fn strip_prefix<'a>(s: &'a str, pat: &str) -> (r: Option<&'a str>)
    ensures
        match r {
            Some(t) => begins(s@, pat@) && t@ == after(s@, pat@.len() as int),
            None => !begins(s@, pat@),
        },
{
    if starts_with(s, pat) {
        let n: usize = pat.unicode_len();
        let m: usize = s.unicode_len();
        Some(s.substring_char(n, m))
    } else {
        None
    }
}

// ---------------------------------------------------------------------------
// Trimming and splitting

/// `s` without the white space in front.
pub open spec fn trim_start(s: Seq<char>) -> Seq<char>
    decreases s.len(),
{
    if s.len() > 0 && is_space(s[0]) {
        trim_start(s.drop_first())
    } else {
        s
    }
}

/// `s` without the white space at the end.
pub open spec fn trim_end(s: Seq<char>) -> Seq<char>
    decreases s.len(),
{
    if s.len() > 0 && is_space(s.last()) {
        trim_end(s.drop_last())
    } else {
        s
    }
}

/// `s` without the white space around it.
pub open spec fn trimmed(s: Seq<char>) -> Seq<char> {
    trim_end(trim_start(s))
}

/// `s` without the white space in front.
pub fn trim_front(s: &str) -> (r: &str)
    ensures
        r@ == trim_start(s@),
{
    let x = chars_of(s);
    let mut i: usize = 0;
    assert(s@.subrange(0, s@.len() as int) =~= s@);
    while i < x.len() && space(x[i])
        invariant
            x@ == s@,
            i <= x@.len(),
            trim_start(after(s@, i as int)) == trim_start(s@),
        decreases x@.len() - i,
    {
        assert(after(s@, i as int).drop_first() =~= after(s@, i + 1));
        i += 1;
    }
    s.substring_char(i, x.len())
}

/// `s` without the white space at the end.
pub fn trim_back(s: &str) -> (r: &str)
    ensures
        r@ == trim_end(s@),
{
    let x = chars_of(s);
    let mut i: usize = x.len();
    assert(s@.subrange(0, s@.len() as int) =~= s@);
    while i > 0 && space(x[i - 1])
        invariant
            x@ == s@,
            i <= x@.len(),
            trim_end(s@.subrange(0, i as int)) == trim_end(s@),
        decreases i,
    {
        assert(s@.subrange(0, i as int).drop_last() =~= s@.subrange(0, i - 1));
        i -= 1;
    }
    s.substring_char(0, i)
}

/// `s` without the white space around it.
pub fn trim(s: &str) -> (r: &str)
    ensures
        r@ == trimmed(s@),
{
    trim_back(trim_front(s))
}

/// The views of a list of texts.
pub open spec fn texts(v: Seq<String>) -> Seq<Seq<char>> {
    Seq::new(v.len(), |i: int| v[i]@)
}

/// The views of a list of text slices.
pub open spec fn slices(v: Seq<&str>) -> Seq<Seq<char>> {
    Seq::new(v.len(), |i: int| v[i]@)
}

pub proof fn texts_push(v: Seq<String>, s: String)
    ensures
        texts(v.push(s)) == texts(v).push(s@),
{
    assert(texts(v.push(s)) =~= texts(v).push(s@));
}

pub proof fn slices_push(v: Seq<&str>, s: &str)
    ensures
        slices(v.push(s)) == slices(v).push(s@),
{
    assert(slices(v.push(s)) =~= slices(v).push(s@));
}

/// `s` cut at every `sep`; there is always one piece more than separators.
pub open spec fn pieces(s: Seq<char>, sep: char) -> Seq<Seq<char>>
    decreases s.len(),
{
    if s.len() == 0 {
        seq![s]
    } else if s.last() == sep {
        pieces(s.drop_last(), sep).push(Seq::empty())
    } else {
        let p = pieces(s.drop_last(), sep);
        p.drop_last().push(p.last().push(s.last()))
    }
}

pub proof fn pieces_nonempty(s: Seq<char>, sep: char)
    ensures
        pieces(s, sep).len() > 0,
    decreases s.len(),
{
    if s.len() > 0 {
        pieces_nonempty(s.drop_last(), sep);
    }
}

/// `s` cut at every `sep`.
pub fn split_on(s: &str, sep: char) -> (r: Vec<&str>)
    ensures
        slices(r@) == pieces(s@, sep),
{
    let x = chars_of(s);
    let mut r: Vec<&str> = Vec::new();
    let mut start: usize = 0;
    let mut i: usize = 0;
    assert(slices(r@).push(s@.subrange(0, 0)) =~= pieces(s@.subrange(0, 0), sep)) by {
        assert(s@.subrange(0, 0) =~= Seq::<char>::empty());
    }
    while i < x.len()
        invariant
            x@ == s@,
            start <= i <= x@.len(),
            slices(r@).push(s@.subrange(start as int, i as int)) == pieces(
                s@.subrange(0, i as int),
                sep,
            ),
        decreases x@.len() - i,
    {
        let ghost before = pieces(s@.subrange(0, i as int), sep);
        assert(s@.subrange(0, i + 1).drop_last() =~= s@.subrange(0, i as int));
        assert(before.last() == s@.subrange(start as int, i as int));
        assert(before.drop_last() =~= slices(r@));
        if x[i] == sep {
            let piece = s.substring_char(start, i);
            proof {
                slices_push(r@, piece);
            }
            r.push(piece);
            start = i + 1;
            assert(s@.subrange(start as int, i + 1) =~= Seq::<char>::empty());
        } else {
            assert(s@.subrange(start as int, i + 1) =~= s@.subrange(start as int, i as int).push(
                s@[i as int],
            ));
        }
        i += 1;
    }
    let piece = s.substring_char(start, i);
    proof {
        slices_push(r@, piece);
        assert(s@.subrange(0, i as int) =~= s@);
    }
    r.push(piece);
    r
}

/// A line without the carriage return that stood before its line feed.
pub open spec fn strip_cr(s: Seq<char>) -> Seq<char> {
    if s.len() > 0 && s.last() == '\r' {
        s.drop_last()
    } else {
        s
    }
}

/// The lines of a text: cut at line feeds, each line feed ending a line, a
/// carriage return before it dropped.
pub open spec fn lines_of(s: Seq<char>) -> Seq<Seq<char>> {
    let p = pieces(s, '\n');
    let ended = Seq::new((p.len() - 1) as nat, |i: int| strip_cr(p[i]));
    if p.last().len() == 0 {
        ended
    } else {
        ended.push(p.last())
    }
}

proof fn occurs_in_longer(s: Seq<char>, pat: Seq<char>)
    requires
        s.len() > 0,
        occurs(s.drop_last(), pat),
    ensures
        occurs(s, pat),
{
    let i = choose|i: int| occurs_at(s.drop_last(), pat, i);
    assert(s.subrange(i, i + pat.len()) =~= s.drop_last().subrange(i, i + pat.len()));
    assert(occurs_at(s, pat, i));
}

proof fn piece_stands(s: Seq<char>, sep: char, k: int)
    requires
        0 <= k < pieces(s, sep).len(),
    ensures
        occurs(s, pieces(s, sep)[k]),
        k == pieces(s, sep).len() - 1 ==> ends(s, pieces(s, sep)[k]),
    decreases s.len(),
{
    let p = pieces(s, sep);
    if s.len() == 0 {
        assert(s.subrange(0, 0) =~= p[k]);
        assert(occurs_at(s, p[k], 0));
    } else {
        let t = s.drop_last();
        pieces_nonempty(t, sep);
        let q = pieces(t, sep);
        if s.last() == sep && k == q.len() {
            assert(s.subrange(s.len() as int, s.len() as int) =~= p[k]);
            assert(occurs_at(s, p[k], s.len() as int));
        } else if s.last() != sep && k == q.len() - 1 {
            piece_stands(t, sep, k);
            let at = t.len() - q[k].len();
            assert(s.subrange(at, s.len() as int) =~= q[k].push(s.last()));
            assert(occurs_at(s, p[k], at));
        } else {
            piece_stands(t, sep, k);
            occurs_in_longer(s, p[k]);
        }
    }
}

/// Every line of a text stands in it.
pub proof fn line_stands(s: Seq<char>, k: int)
    requires
        0 <= k < lines_of(s).len(),
    ensures
        occurs(s, lines_of(s)[k]),
{
    let p = pieces(s, '\n');
    pieces_nonempty(s, '\n');
    piece_stands(s, '\n', k);
    if k < p.len() - 1 {
        let line = strip_cr(p[k]);
        let i = choose|i: int| occurs_at(s, p[k], i);
        assert(s.subrange(i, i + line.len()) =~= s.subrange(i, i + p[k].len()).subrange(
            0,
            line.len() as int,
        ));
        assert(p[k].subrange(0, line.len() as int) =~= line);
        assert(occurs_at(s, line, i));
    }
}

/// The lines of a text.
pub fn lines(s: &str) -> (r: Vec<&str>)
    ensures
        slices(r@) == lines_of(s@),
{
    let p = split_on(s, '\n');
    proof {
        pieces_nonempty(s@, '\n');
    }
    let ghost all = pieces(s@, '\n');
    let n: usize = p.len();
    let mut r: Vec<&str> = Vec::new();
    let mut i: usize = 0;
    assert(p@.len() == slices(p@).len());
    while i < n - 1
        invariant
            n == p@.len(),
            n > 0,
            slices(p@) == all,
            all == pieces(s@, '\n'),
            i <= n - 1,
            r@.len() == i,
            forall|j: int| 0 <= j < i ==> r@[j]@ == strip_cr(all[j]),
        decreases n - 1 - i,
    {
        let line: &str = p[i];
        assert(line@ == all[i as int]);
        let k: usize = line.unicode_len();
        if k > 0 && line.get_char(k - 1) == '\r' {
            r.push(line.substring_char(0, k - 1));
            assert(r@[i as int]@ =~= strip_cr(all[i as int]));
        } else {
            r.push(line);
        }
        i += 1;
    }
    let last: &str = p[n - 1];
    assert(last@ == all.last());
    if !last.is_empty() {
        r.push(last);
    }
    assert(slices(r@) =~= lines_of(s@));
    r
}

/// The words of a text: the longest runs without white space.
pub open spec fn words_of(s: Seq<char>) -> Seq<Seq<char>>
    decreases s.len(),
{
    if s.len() == 0 {
        Seq::empty()
    } else if is_space(s.last()) {
        words_of(s.drop_last())
    } else if s.len() == 1 || is_space(s[s.len() - 2]) {
        words_of(s.drop_last()).push(seq![s.last()])
    } else {
        let w = words_of(s.drop_last());
        w.drop_last().push(w.last().push(s.last()))
    }
}

/// No word is empty, and a text that does not end in white space has one.
pub proof fn words_are_not_empty(s: Seq<char>)
    ensures
        forall|i: int| 0 <= i < words_of(s).len() ==> (#[trigger] words_of(s)[i]).len() > 0,
        s.len() > 0 && !is_space(s.last()) ==> words_of(s).len() > 0,
    decreases s.len(),
{
    if s.len() > 0 {
        let before = s.drop_last();
        words_are_not_empty(before);
        let w = words_of(before);
        let r = words_of(s);
        assert forall|i: int| 0 <= i < r.len() implies (#[trigger] r[i]).len() > 0 by {
            if !is_space(s.last()) && s.len() > 1 && !is_space(s[s.len() - 2]) {
                assert(before.last() == s[s.len() - 2]);
                if i < w.len() - 1 {
                    assert(r[i] == w[i]);
                }
            } else if i < w.len() {
                assert(r[i] == w[i]);
            }
        }
    }
}

/// The words of a text.
pub fn words(s: &str) -> (r: Vec<&str>)
    ensures
        slices(r@) == words_of(s@),
{
    let x = chars_of(s);
    let mut r: Vec<&str> = Vec::new();
    let mut start: usize = 0;
    let mut i: usize = 0;
    assert(s@.subrange(0, 0) =~= Seq::<char>::empty());
    assert(slices(r@) =~= Seq::empty());
    // Between words `start == i`; inside one it is where the word began.
    while i < x.len()
        invariant
            x@ == s@,
            start <= i <= x@.len(),
            start < i ==> !is_space(s@[i - 1]),
            start == i ==> (i == 0 || is_space(s@[i - 1])) && slices(r@) == words_of(
                s@.subrange(0, i as int),
            ),
            start < i ==> slices(r@).push(s@.subrange(start as int, i as int)) == words_of(
                s@.subrange(0, i as int),
            ),
        decreases x@.len() - i,
    {
        let ghost now = s@.subrange(0, i + 1);
        assert(now.drop_last() =~= s@.subrange(0, i as int));
        let ghost w = words_of(s@.subrange(0, i as int));
        if i > 0 {
            assert(now[now.len() - 2] == s@[i - 1]);
        }
        if space(x[i]) {
            if start < i {
                let word = s.substring_char(start, i);
                proof {
                    slices_push(r@, word);
                }
                r.push(word);
            }
            start = i + 1;
        } else if start == i {
            assert(s@.subrange(start as int, i + 1) =~= seq![s@[i as int]]);
        } else {
            assert(w.drop_last() =~= slices(r@));
            assert(w.last() == s@.subrange(start as int, i as int));
            assert(s@.subrange(start as int, i + 1) =~= s@.subrange(start as int, i as int).push(
                s@[i as int],
            ));
        }
        i += 1;
    }
    assert(s@.subrange(0, i as int) =~= s@);
    if start < i {
        let word = s.substring_char(start, i);
        proof {
            slices_push(r@, word);
        }
        r.push(word);
    }
    r
}

// ---------------------------------------------------------------------------
// Numbers read

/// Value of a run of digits, or `None` where a character is no digit.
pub open spec fn digits_value(s: Seq<char>, radix: int) -> Option<int>
    decreases s.len(),
{
    if s.len() == 0 {
        Some(0)
    } else {
        match (digits_value(s.drop_last(), radix), digit_value(s.last(), radix)) {
            (Some(v), Some(d)) => Some(v * radix + d),
            _ => None,
        }
    }
}

/// An unsigned number: one digit or more, an optional plus sign in front, at
/// most `max`.
pub open spec fn number(s: Seq<char>, radix: int, max: int) -> Option<int> {
    let body = if s.len() > 1 && s[0] == '+' { after(s, 1) } else { s };
    if body.len() == 0 {
        None
    } else {
        match digits_value(body, radix) {
            Some(v) if v <= max => Some(v),
            _ => None,
        }
    }
}

/// A signed number in decimal within `min` and `max`.
pub open spec fn signed_number(s: Seq<char>, min: int, max: int) -> Option<int> {
    if s.len() > 1 && s[0] == '-' {
        match digits_value(after(s, 1), 10) {
            Some(v) if -v >= min => Some(-v),
            _ => None,
        }
    } else {
        number(s, 10, max)
    }
}

proof fn digits_none(s: Seq<char>, n: int, radix: int)
    requires
        0 <= n <= s.len(),
        digits_value(s.subrange(0, n), radix) is None,
    ensures
        digits_value(s, radix) is None,
    decreases s.len() - n,
{
    if n == s.len() {
        assert(s.subrange(0, n) =~= s);
    } else {
        assert(s.subrange(0, n + 1).drop_last() =~= s.subrange(0, n));
        digits_none(s, n + 1, radix);
    }
}

proof fn digits_grow(s: Seq<char>, n: int, radix: int)
    requires
        0 <= n <= s.len(),
        1 <= radix <= 16,
        digits_value(s, radix) is Some,
    ensures
        digits_value(s.subrange(0, n), radix) is Some,
        0 <= digits_value(s.subrange(0, n), radix)->0 <= digits_value(s, radix)->0,
    decreases s.len(),
{
    if n == s.len() {
        assert(s.subrange(0, n) =~= s);
        if s.len() > 0 {
            digits_grow(s.drop_last(), s.len() - 1, radix);
            assert(s.drop_last().subrange(0, s.len() - 1) =~= s.drop_last());
            let v = digits_value(s.drop_last(), radix)->0;
            assert(v * radix >= 0) by (nonlinear_arith)
                requires
                    v >= 0,
                    radix >= 1,
            ;
        }
    } else {
        digits_grow(s.drop_last(), n, radix);
        assert(s.drop_last().subrange(0, n) =~= s.subrange(0, n));
        let v = digits_value(s.drop_last(), radix)->0;
        assert(v * radix >= v) by (nonlinear_arith)
            requires
                v >= 0,
                radix >= 1,
        ;
    }
}

fn digits(x: &Vec<char>, from: usize, radix: u32, max: u64) -> (r: Option<u64>)
    requires
        from <= x@.len(),
        radix == 10 || radix == 16,
    ensures
        match digits_value(after(x@, from as int), radix as int) {
            Some(v) if v <= max => r == Some(v as u64),
            _ => r is None,
        },
{
    let ghost t = after(x@, from as int);
    let mut v: u64 = 0;
    let mut i: usize = from;
    assert(t.subrange(0, 0) =~= Seq::<char>::empty());
    while i < x.len()
        invariant
            from <= i <= x@.len(),
            t == after(x@, from as int),
            radix == 10 || radix == 16,
            digits_value(t.subrange(0, i - from), radix as int) == Some(v as int),
            v <= max,
        decreases x@.len() - i,
    {
        assert(t.subrange(0, i - from + 1).drop_last() =~= t.subrange(0, i - from));
        assert(t.subrange(0, i - from + 1).last() == x@[i as int]);
        match digit(x[i], radix) {
            Some(d) => {
                let next: u128 = (v as u128) * (radix as u128) + (d as u128);
                assert(digits_value(t.subrange(0, i - from + 1), radix as int) == Some(
                    next as int,
                ));
                if next > max as u128 {
                    proof {
                        if digits_value(t, radix as int) is Some {
                            digits_grow(t, i - from + 1, radix as int);
                        }
                    }
                    return None;
                }
                v = next as u64;
            },
            None => {
                proof {
                    digits_none(t, i - from + 1, radix as int);
                }
                return None;
            },
        }
        i += 1;
    }
    assert(t.subrange(0, i - from) =~= t);
    Some(v)
}

proof fn digits_nonneg(s: Seq<char>, radix: int)
    requires
        1 <= radix <= 16,
    ensures
        digits_value(s, radix) is Some ==> digits_value(s, radix)->0 >= 0,
{
    if digits_value(s, radix) is Some {
        digits_grow(s, s.len() as int, radix);
        assert(s.subrange(0, s.len() as int) =~= s);
    }
}

/// Reads an unsigned number.
pub fn parse_number(s: &str, radix: u32, max: u64) -> (r: Option<u64>)
    requires
        radix == 10 || radix == 16,
    ensures
        r is Some <==> number(s@, radix as int, max as int) is Some,
        r is Some ==> number(s@, radix as int, max as int) == Some(r->0 as int),
{
    let x = chars_of(s);
    if x.len() > 1 && x[0] == '+' {
        proof { digits_nonneg(after(s@, 1), radix as int); }
        digits(&x, 1, radix, max)
    } else if x.len() == 0 {
        None
    } else {
        assert(after(s@, 0) =~= s@);
        proof { digits_nonneg(s@, radix as int); }
        digits(&x, 0, radix, max)
    }
}

/// Reads a `u32` in decimal.
pub fn parse_u32(s: &str) -> (r: Option<u32>)
    ensures
        r is Some <==> number(s@, 10, u32::MAX as int) is Some,
        r is Some ==> number(s@, 10, u32::MAX as int) == Some(r->0 as int),
{
    match parse_number(s, 10, 0xFFFF_FFFF) {
        Some(v) => Some(v as u32),
        None => None,
    }
}

/// Every character is a decimal digit.
pub open spec fn all_digits(s: Seq<char>) -> bool {
    forall|i: int| 0 <= i < s.len() ==> 48 <= code(#[trigger] s[i]) <= 57
}

/// Whether every character is a decimal digit.
pub fn only_digits(s: &str) -> (r: bool)
    ensures
        r == all_digits(s@),
{
    let x = chars_of(s);
    let mut i: usize = 0;
    while i < x.len()
        invariant
            x@ == s@,
            i <= x@.len(),
            forall|j: int| 0 <= j < i ==> 48 <= code(#[trigger] x@[j]) <= 57,
        decreases x@.len() - i,
    {
        let k: u32 = x[i] as u32;
        if k < 48 || k > 57 {
            assert(!(48 <= code(s@[i as int]) <= 57));
            return false;
        }
        i += 1;
    }
    true
}

/// Reads a signed number in decimal.
pub fn parse_i64(s: &str) -> (r: Option<i64>)
    ensures
        r is Some <==> signed_number(s@, i64::MIN as int, i64::MAX as int) is Some,
        r is Some ==> signed_number(s@, i64::MIN as int, i64::MAX as int) == Some(r->0 as int),
{
    let x = chars_of(s);
    if x.len() > 1 && x[0] == '-' {
        proof {
            digits_nonneg(after(s@, 1), 10);
        }
        match digits(&x, 1, 10, 0x8000_0000_0000_0000) {
            Some(v) => if v == 0x8000_0000_0000_0000 {
                Some(i64::MIN)
            } else {
                Some(-(v as i64))
            },
            None => None,
        }
    } else {
        match parse_number(s, 10, 0x7FFF_FFFF_FFFF_FFFF) {
            Some(v) => Some(v as i64),
            None => None,
        }
    }
}

/// The decimal digits at the front.
pub open spec fn leading_digits(s: Seq<char>) -> Seq<char>
    decreases s.len(),
{
    if s.len() > 0 && 48 <= code(s[0]) <= 57 {
        seq![s[0]] + leading_digits(s.drop_first())
    } else {
        seq![]
    }
}

/// The decimal digits at the front.
pub fn digits_in_front(s: &str) -> (r: &str)
    ensures
        r@ == leading_digits(s@),
{
    let x = chars_of(s);
    let mut i: usize = 0;
    assert(after(s@, 0) =~= s@);
    assert(s@.subrange(0, 0) + leading_digits(after(s@, 0)) =~= leading_digits(s@));
    while i < x.len() && 48 <= x[i] as u32 && x[i] as u32 <= 57
        invariant
            x@ == s@,
            i <= x@.len(),
            s@.subrange(0, i as int) + leading_digits(after(s@, i as int)) == leading_digits(s@),
        decreases x@.len() - i,
    {
        assert(after(s@, i as int).drop_first() =~= after(s@, i + 1));
        assert(s@.subrange(0, i as int) + (seq![s@[i as int]] + leading_digits(after(s@, i + 1)))
            =~= s@.subrange(0, i + 1) + leading_digits(after(s@, i + 1)));
        i += 1;
    }
    assert(leading_digits(after(s@, i as int)) =~= seq![]);
    assert(s@.subrange(0, i as int) + seq![] =~= s@.subrange(0, i as int));
    s.substring_char(0, i)
}

/// What follows the first `c`, where there is one.
pub open spec fn after_first(s: Seq<char>, c: char) -> Option<Seq<char>>
    decreases s.len(),
{
    if s.len() == 0 {
        None
    } else if s[0] == c {
        Some(s.drop_first())
    } else {
        after_first(s.drop_first(), c)
    }
}

/// What follows the first `c`, where there is one.
pub fn rest_after(s: &str, c: char) -> (r: Option<&str>)
    ensures
        match r {
            Some(t) => after_first(s@, c) == Some(t@),
            None => after_first(s@, c) is None,
        },
{
    let x = chars_of(s);
    let mut i: usize = 0;
    assert(after(s@, 0) =~= s@);
    while i < x.len()
        invariant
            x@ == s@,
            i <= x@.len(),
            after_first(after(s@, i as int), c) == after_first(s@, c),
        decreases x@.len() - i,
    {
        assert(after(s@, i as int).drop_first() =~= after(s@, i + 1));
        if x[i] == c {
            return Some(s.substring_char(i + 1, x.len()));
        }
        i += 1;
    }
    None
}

/// `s` without any `pat` in front, however often it is repeated.
pub open spec fn strip_all_front(s: Seq<char>, pat: Seq<char>) -> Seq<char>
    decreases s.len(),
{
    if pat.len() > 0 && begins(s, pat) {
        strip_all_front(after(s, pat.len() as int), pat)
    } else {
        s
    }
}

/// `s` without any `pat` at the end, however often it is repeated.
pub open spec fn strip_all_back(s: Seq<char>, pat: Seq<char>) -> Seq<char>
    decreases s.len(),
{
    if pat.len() > 0 && ends(s, pat) {
        strip_all_back(s.subrange(0, s.len() - pat.len()), pat)
    } else {
        s
    }
}

/// `s` without any `pat` in front, however often it is repeated.
pub fn trim_start_matches<'a>(s: &'a str, pat: &str) -> (r: &'a str)
    ensures
        r@ == strip_all_front(s@, pat@),
    decreases s@.len(),
{
    if pat.is_empty() {
        return s;
    }
    match strip_prefix(s, pat) {
        Some(t) => trim_start_matches(t, pat),
        None => s,
    }
}

/// `s` without any `pat` at the end, however often it is repeated.
pub fn trim_end_matches<'a>(s: &'a str, pat: &str) -> (r: &'a str)
    ensures
        r@ == strip_all_back(s@, pat@),
    decreases s@.len(),
{
    if pat.is_empty() {
        return s;
    }
    if ends_with(s, pat) {
        let n: usize = s.unicode_len();
        let m: usize = pat.unicode_len();
        trim_end_matches(s.substring_char(0, n - m), pat)
    } else {
        s
    }
}

/// Texts in a row with `sep` between them.
pub open spec fn joined(parts: Seq<Seq<char>>, sep: Seq<char>) -> Seq<char>
    decreases parts.len(),
{
    if parts.len() == 0 {
        seq![]
    } else if parts.len() == 1 {
        parts[0]
    } else {
        joined(parts.drop_last(), sep) + sep + parts.last()
    }
}

/// Texts in a row with `sep` between them.
pub fn join(parts: &Vec<String>, sep: &str) -> (r: String)
    ensures
        r@ == joined(texts(parts@), sep@),
{
    let ghost all = texts(parts@);
    if parts.len() == 0 {
        return String::new();
    }
    let mut r = parts[0].clone();
    let mut i: usize = 1;
    assert(all.take(1)[0] == all[0]);
    while i < parts.len()
        invariant
            1 <= i <= parts@.len(),
            all == texts(parts@),
            r@ == joined(all.take(i as int), sep@),
        decreases parts@.len() - i,
    {
        assert(all.take(i + 1).drop_last() =~= all.take(i as int));
        r.append(sep);
        r.append(parts[i].as_str());
        i += 1;
    }
    assert(all.take(i as int) =~= all);
    r
}

/// `t` is what follows the last `pat` in `s`, or all of `s` where there is none.
pub open spec fn follows_last(s: Seq<char>, pat: Seq<char>, t: Seq<char>) -> bool {
    if occurs(s, pat) {
        exists|i: int|
            #![trigger occurs_at(s, pat, i)]
            occurs_at(s, pat, i) && t == after(s, i + pat.len()) && forall|j: int|
                j > i ==> !occurs_at(s, pat, j)
    } else {
        t == s
    }
}

/// What follows the last `pat`, or all of `s` where there is none.
pub open spec fn after_last(s: Seq<char>, pat: Seq<char>) -> Seq<char> {
    choose|t: Seq<char>| follows_last(s, pat, t)
}

/// What follows the last `pat` (not empty), or all of `s` where there is none.
pub fn rest_after_last<'a>(s: &'a str, pat: &str) -> (r: &'a str)
    requires
        pat@.len() > 0,
    ensures
        follows_last(s@, pat@, r@),
        r@ == after_last(s@, pat@),
{
    let n: usize = s.unicode_len();
    let m: usize = pat.unicode_len();
    let mut best: Option<usize> = None;
    let x = chars_of(s);
    let y = chars_of(pat);
    let mut i: usize = 0;
    while i < n && m <= n - i
        invariant
            x@ == s@,
            y@ == pat@,
            n == s@.len(),
            m == pat@.len(),
            i <= n,
            match best {
                Some(b) => b < i && occurs_at(s@, pat@, b as int) && forall|j: int|
                    b < j < i ==> !occurs_at(s@, pat@, j),
                None => forall|j: int| 0 <= j < i ==> !occurs_at(s@, pat@, j),
            },
        decreases n - i,
    {
        if match_at(&x, &y, i) {
            best = Some(i);
        }
        i += 1;
    }
    let r: &str = match best {
        Some(b) => s.substring_char(b + m, n),
        None => s,
    };
    proof {
        assert(follows_last(s@, pat@, r@));
        let t = after_last(s@, pat@);
        assert(follows_last(s@, pat@, t));
        if occurs(s@, pat@) {
            let b = best->0 as int;
            let i = choose|i: int|
                #![trigger occurs_at(s@, pat@, i)]
                occurs_at(s@, pat@, i) && t == after(s@, i + pat@.len()) && forall|j: int|
                    j > i ==> !occurs_at(s@, pat@, j);
            assert(i == b);
        }
    }
    r
}

/// A character with an ASCII small letter made a capital.
pub open spec fn upper_char(c: char) -> char {
    if c == 'a' { 'A' } else if c == 'b' { 'B' } else if c == 'c' { 'C' } else if c == 'd' { 'D' }
    else if c == 'e' { 'E' } else if c == 'f' { 'F' } else if c == 'g' { 'G' } else if c == 'h' {
        'H'
    } else if c == 'i' { 'I' } else if c == 'j' { 'J' } else if c == 'k' { 'K' } else if c == 'l' {
        'L'
    } else if c == 'm' { 'M' } else if c == 'n' { 'N' } else if c == 'o' { 'O' } else if c == 'p' {
        'P'
    } else if c == 'q' { 'Q' } else if c == 'r' { 'R' } else if c == 's' { 'S' } else if c == 't' {
        'T'
    } else if c == 'u' { 'U' } else if c == 'v' { 'V' } else if c == 'w' { 'W' } else if c == 'x' {
        'X'
    } else if c == 'y' { 'Y' } else if c == 'z' { 'Z' } else { c }
}

/// A text with its ASCII small letters made capitals.
pub open spec fn upper(s: Seq<char>) -> Seq<char> {
    s.map_values(|c: char| upper_char(c))
}

fn to_upper(c: char) -> (r: char)
    ensures
        r == upper_char(c),
{
    match c {
        'a' => 'A', 'b' => 'B', 'c' => 'C', 'd' => 'D', 'e' => 'E', 'f' => 'F', 'g' => 'G',
        'h' => 'H', 'i' => 'I', 'j' => 'J', 'k' => 'K', 'l' => 'L', 'm' => 'M', 'n' => 'N',
        'o' => 'O', 'p' => 'P', 'q' => 'Q', 'r' => 'R', 's' => 'S', 't' => 'T', 'u' => 'U',
        'v' => 'V', 'w' => 'W', 'x' => 'X', 'y' => 'Y', 'z' => 'Z', _ => c,
    }
}

/// A text with its ASCII small letters made capitals. The names looked for in
/// the result are of ASCII capitals and digits that no other letter's capital
/// yields, so folding ASCII letters alone finds the same names.
pub fn uppercase(s: &str) -> (r: String)
    ensures
        r@ == upper(s@),
{
    let x = chars_of(s);
    let mut r = String::new();
    let mut i: usize = 0;
    while i < x.len()
        invariant
            x@ == s@,
            i <= x@.len(),
            r@.len() == i,
            forall|j: int| 0 <= j < i ==> #[trigger] r@[j] == upper_char(s@[j]),
        decreases x@.len() - i,
    {
        r.push(to_upper(x[i]));
        i += 1;
    }
    assert(r@ =~= upper(s@));
    r
}

/// A relative path below a directory.
pub open spec fn path_join(dir: Seq<char>, name: Seq<char>) -> Seq<char> {
    if dir.len() == 0 || dir.last() == '/' { dir + name } else { dir + "/"@ + name }
}

/// A relative path below a directory.
pub fn join_path(dir: &str, name: &str) -> (r: String)
    ensures
        r@ == path_join(dir@, name@),
{
    let n: usize = dir.unicode_len();
    if n == 0 || dir.get_char(n - 1) == '/' {
        join2(dir, name)
    } else {
        join3(dir, "/", name)
    }
}

/// A text with every `pat`, from the left, replaced by `with`.
pub open spec fn replaced(s: Seq<char>, pat: Seq<char>, with: Seq<char>) -> Seq<char>
    decreases s.len(),
{
    if pat.len() == 0 || s.len() == 0 {
        s
    } else if begins(s, pat) {
        with + replaced(after(s, pat.len() as int), pat, with)
    } else {
        seq![s[0]] + replaced(s.drop_first(), pat, with)
    }
}

/// Where something was replaced, its replacement stands in the result.
pub proof fn replacement_stands(s: Seq<char>, pat: Seq<char>, with: Seq<char>)
    requires
        pat.len() > 0,
        occurs(s, pat),
    ensures
        occurs(replaced(s, pat, with), with),
    decreases s.len(),
{
    let r = replaced(s, pat, with);
    if begins(s, pat) {
        assert(r.subrange(0, with.len() as int) =~= with);
        assert(occurs_at(r, with, 0));
    } else {
        let i = choose|i: int| occurs_at(s, pat, i);
        let t = s.drop_first();
        assert(t.subrange(i - 1, i - 1 + pat.len()) =~= s.subrange(i, i + pat.len()));
        assert(occurs_at(t, pat, i - 1));
        replacement_stands(t, pat, with);
        let q = replaced(t, pat, with);
        let k = choose|k: int| occurs_at(q, with, k);
        assert(r.subrange(k + 1, k + 1 + with.len()) =~= q.subrange(k, k + with.len()));
        assert(occurs_at(r, with, k + 1));
    }
}

/// Without an occurrence nothing is replaced.
pub proof fn nothing_to_replace(s: Seq<char>, pat: Seq<char>, with: Seq<char>)
    requires
        !occurs(s, pat),
    ensures
        replaced(s, pat, with) == s,
    decreases s.len(),
{
    if pat.len() > 0 && s.len() > 0 {
        let t = s.drop_first();
        if begins(s, pat) {
            assert(occurs_at(s, pat, 0));
        }
        if occurs(t, pat) {
            let i = choose|i: int| occurs_at(t, pat, i);
            assert(s.subrange(i + 1, i + 1 + pat.len()) =~= t.subrange(i, i + pat.len()));
            assert(occurs_at(s, pat, i + 1));
        }
        nothing_to_replace(t, pat, with);
        assert(seq![s[0]] + t =~= s);
    }
}

/// A part of a text occurs where it stands.
pub proof fn part_occurs(before: Seq<char>, part: Seq<char>, behind: Seq<char>)
    ensures
        occurs_at(before + part + behind, part, before.len() as int),
        occurs(before + part + behind, part),
{
    let s = before + part + behind;
    let n = before.len() as int;
    assert(s.subrange(n, n + part.len()) =~= part);
    assert(occurs_at(s, part, n));
}

/// A text with every `pat` (not empty), from the left, replaced by `with`.
pub fn replace(s: &str, pat: &str, with: &str) -> (r: String)
    requires
        pat@.len() > 0,
    ensures
        r@ == replaced(s@, pat@, with@),
{
    let x = chars_of(s);
    let y = chars_of(pat);
    let n: usize = x.len();
    let m: usize = y.len();
    let mut r = String::new();
    let mut i: usize = 0;
    assert(after(s@, 0) =~= s@);
    assert(r@ + replaced(after(s@, 0), pat@, with@) =~= replaced(s@, pat@, with@));
    while i < n
        invariant
            x@ == s@,
            y@ == pat@,
            n == s@.len(),
            m == pat@.len(),
            m > 0,
            i <= n,
            r@ + replaced(after(s@, i as int), pat@, with@) == replaced(s@, pat@, with@),
        decreases n - i,
    {
        let ghost rest = after(s@, i as int);
        let ghost before = r@;
        let hit: bool = m <= n - i && match_at(&x, &y, i);
        assert(hit == begins(rest, pat@)) by {
            if m <= n - i {
                assert(rest.subrange(0, 0 + m as int) =~= s@.subrange(i as int, i + m));
            }
        }
        if hit {
            r.append(with);
            assert(after(rest, m as int) =~= after(s@, i + m));
            assert(before + (with@ + replaced(after(s@, i + m), pat@, with@)) =~= r@ + replaced(
                after(s@, i + m),
                pat@,
                with@,
            ));
            i += m;
        } else {
            r.push(x[i]);
            assert(rest.drop_first() =~= after(s@, i + 1));
            assert(before + (seq![s@[i as int]] + replaced(after(s@, i + 1), pat@, with@)) =~= r@
                + replaced(after(s@, i + 1), pat@, with@));
            i += 1;
        }
    }
    assert(after(s@, i as int) =~= seq![]);
    assert(r@ + seq![] =~= r@);
    r
}

// ---------------------------------------------------------------------------
// Laws

/// A number written in decimal reads as the same number.
pub proof fn decimal_reads_back(n: nat, max: int)
    requires
        n <= max,
    ensures
        number(dec(n), 10, max) == Some(n as int),
        signed_number(dec_int(n as int), -max, max) == Some(n as int),
        n > 0 ==> signed_number(dec_int(-(n as int)), -max, max) == Some(-(n as int)),
{
    decimal_has_its_value(n);
    let minus = seq!['-'] + dec(n);
    assert(after(minus, 1) =~= dec(n));
}

proof fn decimal_has_its_value(n: nat)
    ensures
        digits_value(dec(n), 10) == Some(n as int),
        dec(n).len() > 0,
        48 <= code(dec(n)[0]) <= 57,
    decreases n,
{
    reveal_with_fuel(digits_value, 2);
    if n < 10 {
        assert(dec(n).drop_last() =~= seq![]);
    } else {
        decimal_has_its_value(n / 10);
        assert(dec(n).drop_last() =~= dec(n / 10));
        assert(dec(n)[0] == dec(n / 10)[0]);
    }
}

/// A number written in hexadecimal, in either case of its letters, reads as the
/// same number.
pub proof fn hexadecimal_reads_back(n: nat, max: int)
    requires
        n <= max,
    ensures
        number(hex(n), 16, max) == Some(n as int),
        number(hex_upper(n), 16, max) == Some(n as int),
{
    hexadecimal_has_its_value(n);
}

proof fn hexadecimal_has_its_value(n: nat)
    ensures
        digits_value(hex(n), 16) == Some(n as int),
        digits_value(hex_upper(n), 16) == Some(n as int),
        hex(n).len() > 0 && hex_upper(n).len() == hex(n).len(),
        hex(n)[0] != '+' && hex_upper(n)[0] != '+',
    decreases n,
{
    reveal_with_fuel(digits_value, 2);
    if n < 16 {
        assert(hex(n).drop_last() =~= seq![]);
        assert(hex_upper(n).drop_last() =~= seq![]);
    } else {
        hexadecimal_has_its_value(n / 16);
        assert(hex(n).drop_last() =~= hex(n / 16));
        assert(hex_upper(n).drop_last() =~= hex_upper(n / 16));
        assert(hex(n)[0] == hex(n / 16)[0]);
        assert(hex_upper(n)[0] == hex_upper(n / 16)[0]);
    }
}

/// Padding fills a text up to its width, on one side, and leaves a text that is
/// wide enough as it is.
pub proof fn padding_fills_up(s: Seq<char>, c: char, width: nat)
    ensures
        pad_left(s, c, width).len() == (if s.len() < width { width } else { s.len() }),
        pad_right(s, c, width).len() == (if s.len() < width { width } else { s.len() }),
        ends(pad_left(s, c, width), s),
        begins(pad_right(s, c, width), s),
        forall|i: int|
            0 <= i < pad_left(s, c, width).len() - s.len() ==> #[trigger] pad_left(s, c, width)[i] == c,
        forall|i: int|
            s.len() <= i < pad_right(s, c, width).len() ==> #[trigger] pad_right(s, c, width)[i] == c,
{
    let l = pad_left(s, c, width);
    let r = pad_right(s, c, width);
    assert(l.subrange(l.len() - s.len(), l.len() as int) =~= s);
    assert(r.subrange(0, s.len() as int) =~= s);
}

/// A trimmed text neither begins nor ends with white space, and white space
/// around a text does not change what is left of it.
pub proof fn trimming_takes_the_space_around(s: Seq<char>, c: char)
    requires
        is_space(c),
    ensures
        trimmed(s).len() > 0 ==> !is_space(trimmed(s)[0]) && !is_space(trimmed(s).last()),
        trimmed(s.push(c)) == trimmed(s),
        trimmed(seq![c] + s) == trimmed(s),
        trimmed(seq![]) == Seq::<char>::empty(),
        s.len() > 0 && !is_space(s[0]) && !is_space(s.last()) ==> trimmed(s) == s,
{
    start_is_trimmed(s);
    end_is_trimmed(trim_start(s));
    assert((seq![c] + s).drop_first() =~= s);
    start_of_longer(s, c);
}

proof fn start_is_trimmed(s: Seq<char>)
    ensures
        trim_start(s).len() > 0 ==> !is_space(trim_start(s)[0]),
    decreases s.len(),
{
    if s.len() > 0 && is_space(s[0]) {
        start_is_trimmed(s.drop_first());
    }
}

proof fn end_is_trimmed(s: Seq<char>)
    ensures
        trim_end(s).len() > 0 ==> !is_space(trim_end(s).last()) && trim_end(s)[0] == s[0],
    decreases s.len(),
{
    if s.len() > 0 && is_space(s.last()) {
        end_is_trimmed(s.drop_last());
    }
}

proof fn start_of_longer(s: Seq<char>, c: char)
    requires
        is_space(c),
    ensures
        trim_end(trim_start(s.push(c))) == trim_end(trim_start(s)),
    decreases s.len(),
{
    reveal_with_fuel(trim_start, 2);
    if s.len() == 0 {
        assert(s.push(c).drop_first() =~= s);
    } else if is_space(s[0]) {
        assert(s.push(c).drop_first() =~= s.drop_first().push(c));
        start_of_longer(s.drop_first(), c);
    } else {
        assert(s.push(c).drop_last() =~= s);
    }
}

/// A text is its pieces with the separator between them, and no piece holds the
/// separator.
pub proof fn pieces_make_up_the_text(s: Seq<char>, sep: char)
    ensures
        joined(pieces(s, sep), seq![sep]) == s,
        forall|i: int, j: int|
            0 <= i < pieces(s, sep).len() && 0 <= j < pieces(s, sep)[i].len()
                ==> #[trigger] pieces(s, sep)[i][j] != sep,
    decreases s.len(),
{
    let p = pieces(s, sep);
    if s.len() == 0 {
        assert(p[0] =~= s);
    } else {
        let front = s.drop_last();
        let q = pieces(front, sep);
        pieces_nonempty(front, sep);
        pieces_make_up_the_text(front, sep);
        assert(front.push(s.last()) =~= s);
        if s.last() == sep {
            assert(p.drop_last() =~= q);
            assert(joined(p, seq![sep]) =~= joined(q, seq![sep]) + seq![sep] + p.last());
            assert(joined(p, seq![sep]) =~= s);
        } else {
            assert(p.drop_last() =~= q.drop_last());
            if q.len() == 1 {
                assert(joined(p, seq![sep]) =~= q[0].push(s.last()));
            } else {
                assert(joined(p, seq![sep]) =~= joined(q.drop_last(), seq![sep]) + seq![sep]
                    + q.last().push(s.last()));
                assert(joined(p, seq![sep]) =~= joined(q, seq![sep]).push(s.last()));
            }
            assert(joined(p, seq![sep]) =~= s);
            assert forall|i: int, j: int|
                0 <= i < p.len() && 0 <= j < p[i].len() implies #[trigger] p[i][j] != sep by {
                if i < p.len() - 1 {
                    assert(p[i] == q[i]);
                    assert(q[i][j] != sep);
                } else if j < q.last().len() {
                    assert(q[q.len() - 1][j] != sep);
                }
            }
        }
    }
}

/// A small ASCII letter in upper case is the capital of the same place in the
/// alphabet, and any other character is itself.
pub proof fn capitals_of_small_letters(c: char, s: Seq<char>)
    ensures
        97 <= code(c) <= 122 ==> code(upper_char(c)) == code(c) - 32,
        !(97 <= code(c) <= 122) ==> upper_char(c) == c,
        upper(upper(s)) == upper(s),
        upper(s).len() == s.len(),
{
    assert(forall|d: char| upper_char(upper_char(d)) == #[trigger] upper_char(d));
    assert(upper(upper(s)) =~= upper(s));
}

/// The leading digits of a text are all of them, up to the first character that
/// is none.
pub proof fn leading_digits_are_all(s: Seq<char>)
    ensures
        begins(s, leading_digits(s)),
        all_digits(leading_digits(s)),
        leading_digits(s).len() < s.len() ==> !(48 <= code(s[leading_digits(s).len() as int]) <= 57),
    decreases s.len(),
{
    let d = leading_digits(s);
    if s.len() > 0 && 48 <= code(s[0]) <= 57 {
        let rest = s.drop_first();
        let e = leading_digits(rest);
        leading_digits_are_all(rest);
        assert(rest.subrange(0, e.len() as int) =~= e);
        assert forall|i: int| 0 <= i < d.len() implies d[i] == s[i] by {
            if i > 0 {
                assert(d[i] == e[i - 1]);
                assert(e[i - 1] == rest.subrange(0, e.len() as int)[i - 1]);
                assert(rest[i - 1] == s[i]);
            }
        }
        assert(s.subrange(0, d.len() as int) =~= d);
        assert forall|i: int| 0 <= i < d.len() implies 48 <= code(#[trigger] d[i]) <= 57 by {
            if i > 0 {
                assert(d[i] == e[i - 1]);
            }
        }
        if d.len() < s.len() {
            assert(s[d.len() as int] == rest[e.len() as int]);
        }
    } else {
        assert(s.subrange(0, 0) =~= d);
    }
}

/// What follows the first occurrence of a character is all behind it, and nothing
/// follows only where the character is not there.
pub proof fn first_occurrence_divides(before: Seq<char>, c: char, behind: Seq<char>)
    requires
        forall|i: int| 0 <= i < before.len() ==> #[trigger] before[i] != c,
    ensures
        after_first(before + seq![c] + behind, c) == Some(behind),
        after_first(before, c) is None,
    decreases before.len(),
{
    let s = before + seq![c] + behind;
    if before.len() == 0 {
        assert(s[0] == c);
        assert(s.drop_first() =~= behind);
    } else {
        let rest = before.drop_first();
        assert(s[0] == before[0]);
        assert(s.drop_first() =~= rest + seq![c] + behind);
        assert forall|i: int| 0 <= i < rest.len() implies #[trigger] rest[i] != c by {
            assert(rest[i] == before[i + 1]);
        }
        first_occurrence_divides(rest, c, behind);
    }
}

/// A text stripped of a part in front or at the back has it there no more, and
/// putting it there again does not matter.
pub proof fn stripping_takes_all(s: Seq<char>, pat: Seq<char>)
    requires
        pat.len() > 0,
    ensures
        !begins(strip_all_front(s, pat), pat),
        !ends(strip_all_back(s, pat), pat),
        strip_all_front(pat + s, pat) == strip_all_front(s, pat),
        strip_all_back(s + pat, pat) == strip_all_back(s, pat),
        !begins(s, pat) ==> strip_all_front(s, pat) == s,
        !ends(s, pat) ==> strip_all_back(s, pat) == s,
{
    front_is_stripped(s, pat);
    back_is_stripped(s, pat);
    assert((pat + s).subrange(0, pat.len() as int) =~= pat);
    assert(after(pat + s, pat.len() as int) =~= s);
    assert((s + pat).subrange(s.len() as int, (s + pat).len() as int) =~= pat);
    assert((s + pat).subrange(0, s.len() as int) =~= s);
}

proof fn front_is_stripped(s: Seq<char>, pat: Seq<char>)
    requires
        pat.len() > 0,
    ensures
        !begins(strip_all_front(s, pat), pat),
    decreases s.len(),
{
    if begins(s, pat) {
        front_is_stripped(after(s, pat.len() as int), pat);
    }
}

proof fn back_is_stripped(s: Seq<char>, pat: Seq<char>)
    requires
        pat.len() > 0,
    ensures
        !ends(strip_all_back(s, pat), pat),
    decreases s.len(),
{
    if ends(s, pat) {
        back_is_stripped(s.subrange(0, s.len() - pat.len()), pat);
    }
}

/// A directory and a name are joined by exactly one separator, and a name without
/// a directory is itself.
pub proof fn paths_join_by_one_separator(dir: Seq<char>, name: Seq<char>)
    ensures
        path_join(seq![], name) == name,
        dir.len() > 0 && dir.last() == '/' ==> path_join(dir, name) == dir + name,
        dir.len() > 0 && dir.last() != '/' ==> path_join(dir, name) == dir + seq!['/'] + name,
{
    reveal_strlit("/");
    assert("/"@ =~= seq!['/']);
    assert(path_join(seq![], name) =~= name);
}

/// No word holds white space, and white space behind a text adds no word.
pub proof fn words_hold_no_space(s: Seq<char>, c: char)
    requires
        is_space(c),
    ensures
        forall|i: int, j: int|
            0 <= i < words_of(s).len() && 0 <= j < words_of(s)[i].len() ==> !is_space(
                #[trigger] words_of(s)[i][j],
            ),
        words_of(s.push(c)) == words_of(s),
    decreases s.len(),
{
    assert(s.push(c).drop_last() =~= s);
    if s.len() > 0 {
        let front = s.drop_last();
        words_hold_no_space(front, c);
        words_are_not_empty(front);
        let w = words_of(s);
        let v = words_of(front);
        if !is_space(s.last()) {
            assert forall|i: int, j: int|
                0 <= i < w.len() && 0 <= j < w[i].len() implies !is_space(#[trigger] w[i][j]) by {
                if s.len() == 1 || is_space(s[s.len() - 2]) {
                    if i < v.len() {
                        assert(w[i] == v[i]);
                        assert(!is_space(v[i][j]));
                    }
                } else if v.len() > 0 {
                    if i < v.len() - 1 {
                        assert(w[i] == v[i]);
                        assert(!is_space(v[i][j]));
                    } else if j < v.last().len() {
                        assert(!is_space(v[v.len() - 1][j]));
                    }
                } else {
                    last_begins_a_word(front);
                }
            }
        }
    }
}

proof fn last_begins_a_word(s: Seq<char>)
    requires
        s.len() > 0,
        !is_space(s.last()),
    ensures
        words_of(s).len() > 0,
{
}

/// A word stands alone between white space: one more character behind a text
/// without any is the end of the same word, and behind white space it begins
/// another.
pub proof fn words_end_at_space(s: Seq<char>, gap: char, c: char)
    requires
        is_space(gap),
        !is_space(c),
    ensures
        words_of(s.push(gap).push(c)) == words_of(s).push(seq![c]),
        words_of(seq![c]) == seq![seq![c]],
{
    reveal_with_fuel(words_of, 3);
    let t = s.push(gap).push(c);
    assert(t.drop_last() =~= s.push(gap));
    assert(s.push(gap).drop_last() =~= s);
    assert(t[t.len() - 2] == gap);
    assert(seq![c].drop_last() =~= seq![]);
    assert(words_of(seq![c]) =~= seq![seq![c]]);
}

/// Hexadecimal digits are no white space and no `x`.
pub proof fn hexadecimal_is_bare(n: nat, i: int)
    requires
        0 <= i < hex(n).len(),
    ensures
        hex(n)[i] != 'x',
        !is_space(hex(n)[i]),
    decreases n,
{
    if n >= 16 && i < hex(n).len() - 1 {
        assert(hex(n)[i] == hex(n / 16)[i]);
        hexadecimal_is_bare(n / 16, i);
    }
}

/// Decimal digits are digits.
pub proof fn decimal_is_digits(n: nat)
    ensures
        all_digits(dec(n)),
        dec(n).len() > 0,
    decreases n,
{
    if n >= 10 {
        decimal_is_digits(n / 10);
        assert forall|i: int| 0 <= i < dec(n).len() implies 48 <= code(#[trigger] dec(n)[i]) <= 57 by {
            if i < dec(n).len() - 1 {
                assert(dec(n)[i] == dec(n / 10)[i]);
            }
        }
    }
}

} // verus!
