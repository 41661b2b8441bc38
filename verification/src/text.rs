//! Character-level helpers shared by the parsers and formatters.
//!
//! Every function here works on sequences of `char`: the view of a `str` or
//! `String`, held at run time in a `Vec<char>`.
use vstd::prelude::*;

verus! {

/// Collects the characters of `s` into a vector.
pub fn to_chars(s: &str) -> (out: Vec<char>)
    ensures
        out@ == s@,
{
    let mut out: Vec<char> = Vec::new();
    for c in it: s.chars()
        invariant
            out@ == it.seq().take(it.index() as int),
            it.seq() == s@,
    {
        out.push(c);
    }
    out
}

/// `String::from_iter` over the characters of `v`: the standard library
/// documents that the string built holds exactly those characters, in order.
#[verifier::external_body]
pub(crate) fn from_chars(v: &Vec<char>) -> (out: String)
    ensures
        out@ == v@,
{
    String::from_iter(v.iter())
}

/// The views of a list of strings.
pub open spec fn views(v: Seq<String>) -> Seq<Seq<char>> {
    Seq::new(v.len(), |i: int| v[i]@)
}

/// The views of a list of character vectors.
pub open spec fn char_views(v: Seq<Vec<char>>) -> Seq<Seq<char>> {
    Seq::new(v.len(), |i: int| v[i]@)
}

/// Whether two character sequences are equal.
pub fn same(a: &Vec<char>, b: &Vec<char>) -> (r: bool)
    ensures
        r == (a@ == b@),
{
    if a.len() != b.len() {
        return false;
    }
    let mut i: usize = 0;
    while i < a.len()
        invariant
            a.len() == b.len(),
            i <= a.len(),
            a@.take(i as int) == b@.take(i as int),
        decreases a.len() - i,
    {
        if a[i] != b[i] {
            return false;
        }
        i += 1;
    }
    assert(a@.take(a.len() as int) == a@);
    assert(b@.take(b.len() as int) == b@);
    true
}

/// Whether `s` holds exactly the characters of `lit`.
pub fn is_text(s: &Vec<char>, lit: &str) -> (r: bool)
    ensures
        r == (s@ == lit@),
{
    let l = to_chars(lit);
    same(s, &l)
}

/// Whether `s` begins with `prefix`.
pub fn has_prefix(s: &Vec<char>, prefix: &Vec<char>) -> (r: bool)
    ensures
        r == prefix@.is_prefix_of(s@),
{
    if prefix.len() > s.len() {
        return false;
    }
    let mut i: usize = 0;
    while i < prefix.len()
        invariant
            prefix.len() <= s.len(),
            i <= prefix.len(),
            forall|j: int| 0 <= j < i ==> s@[j] == prefix@[j],
        decreases prefix.len() - i,
    {
        if s[i] != prefix[i] {
            return false;
        }
        i += 1;
    }
    true
}

/// The characters of `s` from position `from` on; empty when `s` is shorter.
pub open spec fn tail(s: Seq<char>, from: int) -> Seq<char> {
    if 0 <= from <= s.len() {
        s.skip(from)
    } else {
        Seq::empty()
    }
}

/// Copies `s[from..to]`.
pub fn slice(s: &Vec<char>, from: usize, to: usize) -> (out: Vec<char>)
    requires
        from <= to <= s.len(),
    ensures
        out@ == s@.subrange(from as int, to as int),
{
    let mut out: Vec<char> = Vec::new();
    let mut i: usize = from;
    while i < to
        invariant
            from <= i <= to <= s.len(),
            out@ == s@.subrange(from as int, i as int),
        decreases to - i,
    {
        out.push(s[i]);
        i += 1;
    }
    out
}

/// Appends the characters of `more` to `out`.
pub fn push_all(out: &mut Vec<char>, more: &Vec<char>)
    ensures
        final(out)@ == old(out)@ + more@,
{
    let mut i: usize = 0;
    while i < more.len()
        invariant
            i <= more.len(),
            out@ == old(out)@ + more@.take(i as int),
        decreases more.len() - i,
    {
        out.push(more[i]);
        i += 1;
    }
}

/// Appends the characters of the string `more` to `out`.
pub fn push_str(out: &mut Vec<char>, more: &str)
    ensures
        final(out)@ == old(out)@ + more@,
{
    let m = to_chars(more);
    push_all(out, &m);
}

/// Whether `c` has the Unicode property White_Space.
pub open spec fn is_whitespace(c: char) -> bool {
    let n = c as u32;
    ||| 0x09 <= n <= 0x0D
    ||| n == 0x20
    ||| n == 0x85
    ||| n == 0xA0
    ||| n == 0x1680
    ||| 0x2000 <= n <= 0x200A
    ||| n == 0x2028
    ||| n == 0x2029
    ||| n == 0x202F
    ||| n == 0x205F
    ||| n == 0x3000
}

/// Whether `c` is ASCII white space: space, tab, line feed, form feed or
/// carriage return.
pub open spec fn is_ascii_whitespace(c: char) -> bool {
    c == ' ' || c == '\t' || c == '\n' || c == '\x0C' || c == '\r'
}

/// Whether `c` separates words: by the ASCII rule where `ascii` is set, by
/// the Unicode rule otherwise.
pub open spec fn is_gap(c: char, ascii: bool) -> bool {
    if ascii {
        is_ascii_whitespace(c)
    } else {
        is_whitespace(c)
    }
}

/// Whether `c` separates words.
pub fn gap(c: char, ascii: bool) -> (r: bool)
    ensures
        r == is_gap(c, ascii),
{
    if ascii {
        c == ' ' || c == '\t' || c == '\n' || c == '\x0C' || c == '\r'
    } else {
        let n: u32 = c as u32;
        (0x09 <= n && n <= 0x0D) || n == 0x20 || n == 0x85 || n == 0xA0 || n == 0x1680 || (0x2000
            <= n && n <= 0x200A) || n == 0x2028 || n == 0x2029 || n == 0x202F || n == 0x205F || n
            == 0x3000
    }
}

/// `s` without the white space at its end.
pub open spec fn trim_end(s: Seq<char>) -> Seq<char>
    decreases s.len(),
{
    if s.len() > 0 && is_whitespace(s.last()) {
        trim_end(s.drop_last())
    } else {
        s
    }
}

/// Drops the white space at the end of `s`.
pub fn trimmed_end(s: &Vec<char>) -> (out: Vec<char>)
    ensures
        out@ == trim_end(s@),
{
    let mut end: usize = s.len();
    assert(s@.take(end as int) == s@);
    while end > 0 && gap(s[end - 1], false)
        invariant
            end <= s.len(),
            trim_end(s@) == trim_end(s@.take(end as int)),
        decreases end,
    {
        assert(s@.take(end as int).drop_last() == s@.take(end - 1));
        end -= 1;
    }
    slice(s, 0, end)
}

/// The words found so far in `s`, and the word that its end is still in.
pub open spec fn scan_words(s: Seq<char>, ascii: bool) -> (Seq<Seq<char>>, Seq<char>)
    decreases s.len(),
{
    if s.len() == 0 {
        (Seq::empty(), Seq::empty())
    } else {
        let (done, word) = scan_words(s.drop_last(), ascii);
        if !is_gap(s.last(), ascii) {
            (done, word.push(s.last()))
        } else if word.len() > 0 {
            (done.push(word), Seq::empty())
        } else {
            (done, word)
        }
    }
}

/// The words of `s`: its maximal runs of characters that are not white space.
pub open spec fn words(s: Seq<char>, ascii: bool) -> Seq<Seq<char>> {
    let (done, word) = scan_words(s, ascii);
    if word.len() > 0 {
        done.push(word)
    } else {
        done
    }
}

/// Splits `s` at white space.
pub fn split_words(s: &Vec<char>, ascii: bool) -> (out: Vec<Vec<char>>)
    ensures
        char_views(out@) == words(s@, ascii),
{
    let mut out: Vec<Vec<char>> = Vec::new();
    let mut word: Vec<char> = Vec::new();
    let mut i: usize = 0;
    while i < s.len()
        invariant
            i <= s.len(),
            (char_views(out@), word@) == scan_words(s@.take(i as int), ascii),
        decreases s.len() - i,
    {
        let c = s[i];
        assert(s@.take(i + 1).drop_last() == s@.take(i as int));
        if !gap(c, ascii) {
            word.push(c);
        } else if word.len() > 0 {
            let ghost before = char_views(out@);
            let ghost w = word@;
            out.push(word);
            word = Vec::new();
            assert(char_views(out@) == before.push(w));
        }
        i += 1;
    }
    assert(s@.take(s.len() as int) == s@);
    if word.len() > 0 {
        let ghost before = char_views(out@);
        let ghost w = word@;
        out.push(word);
        assert(char_views(out@) == before.push(w));
    }
    out
}

/// The parts with `sep` between each two neighbours.
pub open spec fn join(parts: Seq<Seq<char>>, sep: Seq<char>) -> Seq<char>
    decreases parts.len(),
{
    if parts.len() == 0 {
        Seq::empty()
    } else if parts.len() == 1 {
        parts[0]
    } else {
        join(parts.drop_last(), sep) + sep + parts.last()
    }
}

/// Joins the parts with `sep` between them.
pub fn joined(parts: &Vec<Vec<char>>, sep: &str) -> (out: Vec<char>)
    ensures
        out@ == join(char_views(parts@), sep@),
{
    let sep_chars = to_chars(sep);
    let mut out: Vec<char> = Vec::new();
    let mut i: usize = 0;
    let ghost all = char_views(parts@);
    while i < parts.len()
        invariant
            i <= parts.len(),
            all == char_views(parts@),
            sep_chars@ == sep@,
            out@ == join(all.take(i as int), sep@),
        decreases parts.len() - i,
    {
        assert(all.take(i + 1).drop_last() == all.take(i as int));
        if i > 0 {
            push_all(&mut out, &sep_chars);
        }
        push_all(&mut out, &parts[i]);
        i += 1;
    }
    assert(all.take(parts.len() as int) == all);
    out
}

/// The position of the first `c` in `s`, or the length of `s` where it holds none.
pub open spec fn position(s: Seq<char>, c: char) -> int
    decreases s.len(),
{
    if s.len() == 0 || s[0] == c {
        0
    } else {
        1 + position(s.skip(1), c)
    }
}

/// `position` is the least index that holds `c`.
pub proof fn lemma_position(s: Seq<char>, c: char)
    ensures
        0 <= position(s, c) <= s.len(),
        forall|j: int| 0 <= j < position(s, c) ==> s[j] != c,
        position(s, c) < s.len() ==> s[position(s, c)] == c,
    decreases s.len(),
{
    if s.len() > 0 && s[0] != c {
        lemma_position(s.skip(1), c);
        assert forall|j: int| 0 <= j < position(s, c) implies s[j] != c by {
            if j > 0 {
                assert(s.skip(1)[j - 1] == s[j]);
            }
        }
    }
}

/// Any index that holds `c` and has none before it is the `position`.
pub proof fn lemma_position_is(s: Seq<char>, c: char, i: int)
    requires
        0 <= i <= s.len(),
        forall|j: int| 0 <= j < i ==> s[j] != c,
        i < s.len() ==> s[i] == c,
    ensures
        position(s, c) == i,
{
    lemma_position(s, c);
}

/// Finds the first `c` in `s`.
pub fn find(s: &Vec<char>, c: char) -> (i: usize)
    ensures
        i == position(s@, c),
        i <= s.len(),
        i < s.len() ==> s@[i as int] == c,
        forall|j: int| 0 <= j < i ==> s@[j] != c,
{
    let mut i: usize = 0;
    while i < s.len() && s[i] != c
        invariant
            i <= s.len(),
            forall|j: int| 0 <= j < i ==> s@[j] != c,
        decreases s.len() - i,
    {
        i += 1;
    }
    proof {
        lemma_position_is(s@, c, i as int);
    }
    i
}

/// Whether `pat` occurs in `s` as a run of neighbouring characters.
pub open spec fn occurs_in(pat: Seq<char>, s: Seq<char>) -> bool {
    exists|i: int| 0 <= i && i + pat.len() <= s.len() && #[trigger] s.subrange(i, i + pat.len()) == pat
}

/// Whether `s` holds `pat` at position `i`.
pub fn matches_at(s: &Vec<char>, i: usize, pat: &Vec<char>) -> (r: bool)
    requires
        i <= s.len(),
    ensures
        r == (i + pat.len() <= s.len() && s@.subrange(i as int, i + pat.len()) == pat@),
{
    if pat.len() > s.len() - i {
        return false;
    }
    let mut k: usize = 0;
    while k < pat.len()
        invariant
            i + pat.len() <= s.len(),
            k <= pat.len(),
            forall|j: int| 0 <= j < k ==> s@[i + j] == pat@[j],
        decreases pat.len() - k,
    {
        if s[i + k] != pat[k] {
            return false;
        }
        k += 1;
    }
    assert(s@.subrange(i as int, i + pat.len()) =~= pat@);
    true
}

/// Whether `pat` occurs in `s`.
pub fn contains(s: &Vec<char>, pat: &Vec<char>) -> (r: bool)
    ensures
        r == occurs_in(pat@, s@),
{
    let mut i: usize = 0;
    loop
        invariant
            i <= s.len(),
            forall|j: int|
                0 <= j < i ==> #[trigger] s@.subrange(j, j + pat.len()) != pat@ || j + pat.len()
                    > s.len(),
        decreases s.len() - i,
    {
        if matches_at(s, i, pat) {
            return true;
        }
        if i == s.len() {
            return false;
        }
        i += 1;
    }
}

/// `s` with every occurrence of `pat` taken out, found from left to right.
pub open spec fn without(s: Seq<char>, pat: Seq<char>) -> Seq<char>
    decreases s.len(),
{
    if s.len() == 0 {
        s
    } else if pat.len() > 0 && pat.is_prefix_of(s) {
        without(s.skip(pat.len() as int), pat)
    } else {
        seq![s[0]] + without(s.skip(1), pat)
    }
}

/// Takes every occurrence of `pat` out of `s`.
pub fn removed(s: &Vec<char>, pat: &Vec<char>) -> (out: Vec<char>)
    ensures
        out@ == without(s@, pat@),
{
    let mut out: Vec<char> = Vec::new();
    let mut i: usize = 0;
    assert(s@.skip(0) == s@);
    while i < s.len()
        invariant
            i <= s.len(),
            without(s@, pat@) == out@ + without(s@.skip(i as int), pat@),
        decreases s.len() - i,
    {
        let ghost rest = s@.skip(i as int);
        if pat.len() > 0 && matches_at(s, i, pat) {
            assert(rest.skip(pat@.len() as int) == s@.skip(i + pat.len()));
            i += pat.len();
        } else {
            proof {
                if pat@.len() > 0 && pat@.is_prefix_of(rest) {
                    assert(rest.subrange(0, pat@.len() as int) == s@.subrange(
                        i as int,
                        i + pat.len(),
                    ));
                }
                assert(rest.skip(1) == s@.skip(i + 1));
            }
            out.push(s[i]);
            i += 1;
        }
    }
    out
}

/// The pieces of `s` that end before `sep`, and the piece that its end is in.
pub open spec fn scan_pieces(s: Seq<char>, sep: char) -> (Seq<Seq<char>>, Seq<char>)
    decreases s.len(),
{
    if s.len() == 0 {
        (Seq::empty(), Seq::empty())
    } else {
        let (done, piece) = scan_pieces(s.drop_last(), sep);
        if s.last() == sep {
            (done.push(piece), Seq::empty())
        } else {
            (done, piece.push(s.last()))
        }
    }
}

/// The pieces that `sep` cuts `s` into; an empty piece between two
/// neighbouring separators, and always at least one piece.
pub open spec fn pieces(s: Seq<char>, sep: char) -> Seq<Seq<char>> {
    let (done, piece) = scan_pieces(s, sep);
    done.push(piece)
}

/// Cuts `s` at every `sep`.
pub fn split(s: &Vec<char>, sep: char) -> (out: Vec<Vec<char>>)
    ensures
        char_views(out@) == pieces(s@, sep),
        out.len() >= 1,
{
    let mut out: Vec<Vec<char>> = Vec::new();
    let mut piece: Vec<char> = Vec::new();
    let mut i: usize = 0;
    while i < s.len()
        invariant
            i <= s.len(),
            (char_views(out@), piece@) == scan_pieces(s@.take(i as int), sep),
        decreases s.len() - i,
    {
        let c = s[i];
        assert(s@.take(i + 1).drop_last() == s@.take(i as int));
        if c == sep {
            let ghost before = char_views(out@);
            let ghost w = piece@;
            out.push(piece);
            piece = Vec::new();
            assert(char_views(out@) == before.push(w));
        } else {
            piece.push(c);
        }
        i += 1;
    }
    assert(s@.take(s.len() as int) == s@);
    let ghost before = char_views(out@);
    let ghost w = piece@;
    out.push(piece);
    assert(char_views(out@) == before.push(w));
    out
}

/// The lines of `s`: each piece that a line feed ends, without a carriage
/// return before that line feed, and then what follows the last line feed,
/// unless that is empty.
pub open spec fn lines(s: Seq<char>) -> Seq<Seq<char>> {
    let (done, piece) = scan_pieces(s, '\n');
    let ended = Seq::new(done.len(), |i: int| without_return(done[i]));
    if piece.len() > 0 {
        ended.push(piece)
    } else {
        ended
    }
}

/// `line` without one carriage return at its end.
pub open spec fn without_return(line: Seq<char>) -> Seq<char> {
    if line.len() > 0 && line.last() == '\r' {
        line.drop_last()
    } else {
        line
    }
}

/// Cuts `s` into its lines.
pub fn split_lines(s: &Vec<char>) -> (out: Vec<Vec<char>>)
    ensures
        char_views(out@) == lines(s@),
{
    let all = split(s, '\n');
    let n: usize = all.len() - 1;
    let ghost (done, piece) = scan_pieces(s@, '\n');
    assert(char_views(all@).last() == piece);
    let mut out: Vec<Vec<char>> = Vec::new();
    let mut i: usize = 0;
    while i < n
        invariant
            i <= n,
            n == all.len() - 1,
            done == char_views(all@).take(n as int),
            out.len() == i,
            forall|j: int| 0 <= j < i ==> out@[j]@ == without_return(done[j]),
        decreases n - i,
    {
        let line = &all[i];
        let m = line.len();
        if m > 0 && line[m - 1] == '\r' {
            let cut = slice(line, 0, m - 1);
            out.push(cut);
        } else {
            let whole = slice(line, 0, m);
            out.push(whole);
        }
        i += 1;
    }
    let last = &all[n];
    if last.len() > 0 {
        let whole = slice(last, 0, last.len());
        assert(whole@ == piece);
        out.push(whole);
    }
    out
}

/// Whether two strings hold the same characters.
pub fn str_eq(a: &str, b: &str) -> (r: bool)
    ensures
        r == (a@ == b@),
{
    let x = to_chars(a);
    let y = to_chars(b);
    same(&x, &y)
}

/// `s` without the white space at its beginning.
pub open spec fn trim_start(s: Seq<char>) -> Seq<char>
    decreases s.len(),
{
    if s.len() > 0 && is_whitespace(s[0]) {
        trim_start(s.skip(1))
    } else {
        s
    }
}

/// `s` without the white space at its two ends.
pub open spec fn trim(s: Seq<char>) -> Seq<char> {
    trim_end(trim_start(s))
}

/// Drops the white space at the two ends of `s`.
pub fn trimmed(s: &Vec<char>) -> (out: Vec<char>)
    ensures
        out@ == trim(s@),
{
    let mut start: usize = 0;
    assert(s@.skip(0) == s@);
    while start < s.len() && gap(s[start], false)
        invariant
            start <= s.len(),
            trim_start(s@) == trim_start(s@.skip(start as int)),
        decreases s.len() - start,
    {
        assert(s@.skip(start as int).skip(1) == s@.skip(start + 1));
        start += 1;
    }
    let rest = slice(s, start, s.len());
    trimmed_end(&rest)
}

/// Whether `word` is a word: it is not empty and holds no white space.
pub open spec fn is_word(word: Seq<char>, ascii: bool) -> bool {
    word.len() > 0 && forall|k: int| 0 <= k < word.len() ==> !is_gap(#[trigger] word[k], ascii)
}

proof fn lemma_scan_words(s: Seq<char>, ascii: bool)
    ensures
        forall|i: int|
            0 <= i < scan_words(s, ascii).0.len() ==> is_word(
                #[trigger] scan_words(s, ascii).0[i],
                ascii,
            ),
        forall|k: int|
            0 <= k < scan_words(s, ascii).1.len() ==> !is_gap(
                #[trigger] scan_words(s, ascii).1[k],
                ascii,
            ),
    decreases s.len(),
{
    if s.len() > 0 {
        lemma_scan_words(s.drop_last(), ascii);
        let (done, word) = scan_words(s.drop_last(), ascii);
        let (done1, word1) = scan_words(s, ascii);
        assert forall|i: int| 0 <= i < done1.len() implies is_word(#[trigger] done1[i], ascii) by {
            if i >= done.len() {
                assert forall|k: int| 0 <= k < word.len() implies !is_gap(
                    #[trigger] word[k],
                    ascii,
                ) by {}
            }
        }
        assert forall|k: int| 0 <= k < word1.len() implies !is_gap(#[trigger] word1[k], ascii) by {}
    }
}

/// What `words` gives are words: none is empty, and none holds white space.
pub proof fn lemma_words(s: Seq<char>, ascii: bool)
    ensures
        forall|i: int| 0 <= i < words(s, ascii).len() ==> is_word(#[trigger] words(s, ascii)[i], ascii),
{
    lemma_scan_words(s, ascii);
    let (done, word) = scan_words(s, ascii);
    assert forall|i: int| 0 <= i < words(s, ascii).len() implies is_word(
        #[trigger] words(s, ascii)[i],
        ascii,
    ) by {
        if i >= done.len() {
            assert forall|k: int| 0 <= k < word.len() implies !is_gap(#[trigger] word[k], ascii) by {}
        }
    }
}

proof fn lemma_scan_pieces(s: Seq<char>, sep: char)
    ensures
        join(scan_pieces(s, sep).0.push(scan_pieces(s, sep).1), seq![sep]) == s,
        forall|i: int|
            0 <= i < scan_pieces(s, sep).0.len() ==> !(#[trigger] scan_pieces(s, sep).0[i]).contains(
                sep,
            ),
        !scan_pieces(s, sep).1.contains(sep),
    decreases s.len(),
{
    if s.len() > 0 {
        let before = s.drop_last();
        lemma_scan_pieces(before, sep);
        let (d0, p0) = scan_pieces(before, sep);
        let parts0 = d0.push(p0);
        if s.last() == sep {
            let parts = d0.push(p0).push(Seq::<char>::empty());
            assert(parts.drop_last() == parts0);
        } else {
            let parts = d0.push(p0.push(s.last()));
            lemma_join_last(parts0, seq![sep], s.last());
            assert(parts0.drop_last().push(parts0.last().push(s.last())) == parts);
            assert forall|k: int| 0 <= k < p0.push(s.last()).len() implies p0.push(s.last())[k]
                != sep by {}
        }
    }
}

proof fn lemma_join_last(parts: Seq<Seq<char>>, sep: Seq<char>, c: char)
    requires
        parts.len() > 0,
    ensures
        join(parts.drop_last().push(parts.last().push(c)), sep) == join(parts, sep).push(c),
{
    let grown = parts.drop_last().push(parts.last().push(c));
    assert(grown.drop_last() == parts.drop_last());
}

/// What `pieces` gives are the pieces of `s`: no piece holds the separator,
/// and the pieces with the separator between them are `s` again.
pub proof fn lemma_pieces(s: Seq<char>, sep: char)
    ensures
        join(pieces(s, sep), seq![sep]) == s,
        forall|i: int| 0 <= i < pieces(s, sep).len() ==> !(#[trigger] pieces(s, sep)[i]).contains(sep),
{
    lemma_scan_pieces(s, sep);
}

} // verus!
