//! Text building and inspection for report details: decimal numerals,
//! joining with a separator, the first line of captured output, and
//! substring search.

use vstd::prelude::*;

verus! {

/// The ten decimal digits, in order.
pub open spec fn digits() -> Seq<char> {
    seq!['0', '1', '2', '3', '4', '5', '6', '7', '8', '9']
}

/// The decimal numeral of `n`, most significant digit first, without
/// leading zeros (zero itself is "0").
pub open spec fn decimal(n: nat) -> Seq<char>
    decreases n,
{
    if n < 10 {
        seq![digits()[n as int]]
    } else {
        decimal(n / 10) + seq![digits()[(n % 10) as int]]
    }
}

/// The decimal numeral of `n`.
pub fn decimal_string(n: u64) -> (r: String)
    ensures
        r@ == decimal(n as nat),
    decreases n,
{
    let table = "0123456789";
    proof {
        reveal_strlit("0123456789");
    }
    assert(table@ =~= digits());
    if n < 10 {
        let d = n as usize;
        let s = table.substring_char(d, d + 1);
        assert(s@ =~= seq![digits()[n as int]]);
        String::from_str(s)
    } else {
        let mut head = decimal_string(n / 10);
        let d = (n % 10) as usize;
        let s = table.substring_char(d, d + 1);
        assert(s@ =~= seq![digits()[(n % 10) as int]]);
        head.append(s);
        head
    }
}

/// The parts joined with `sep` between consecutive ones.
pub open spec fn joined(parts: Seq<Seq<char>>, sep: Seq<char>) -> Seq<char>
    decreases parts.len(),
{
    if parts.len() == 0 {
        Seq::empty()
    } else if parts.len() == 1 {
        parts[0]
    } else {
        joined(parts.drop_last(), sep) + sep + parts.last()
    }
}

/// The views of a list of strings.
pub open spec fn views(list: Seq<String>) -> Seq<Seq<char>> {
    list.map_values(|s: String| s@)
}

/// `list` joined with `sep` between consecutive elements.
pub fn join(list: &Vec<String>, sep: &str) -> (r: String)
    ensures
        r@ == joined(views(list@), sep@),
{
    let mut r = String::new();
    let ghost parts = views(list@);
    let n = list.len();
    let mut i: usize = 0;
    while i < n
        invariant
            n == list.len(),
            i <= n,
            parts == views(list@),
            r@ == joined(parts.take(i as int), sep@),
        decreases n - i,
    {
        assert(parts.take(i + 1).drop_last() =~= parts.take(i as int));
        if i > 0 {
            r.append(sep);
        }
        r.append(list[i].as_str());
        i = i + 1;
    }
    assert(parts.take(n as int) =~= parts);
    r
}

/// The characters of a string, as a vector.
pub fn chars_of(s: &str) -> (r: Vec<char>)
    ensures
        r@ == s@,
{
    let mut r: Vec<char> = Vec::new();
    for c in it: s.chars()
        invariant
            r@ == it.seq().take(it.index() as int),
            it.seq() == s@,
    {
        r.push(c);
    }
    r
}

/// `i` is the position of the first line feed in `s`.
pub open spec fn is_first_newline(s: Seq<char>, i: int) -> bool {
    &&& 0 <= i < s.len()
    &&& s[i] == '\n'
    &&& forall|j: int| 0 <= j < i ==> s[j] != '\n'
}

/// The text before the first line ending, or the whole text when it has
/// none. A line ending is a line feed, or a carriage return followed by a
/// line feed; a lone carriage return is kept. This is the first item of
/// `str::lines`, or the empty text when that yields nothing.
pub open spec fn first_line(s: Seq<char>) -> Seq<char> {
    if exists|i: int| is_first_newline(s, i) {
        let i = choose|i: int| is_first_newline(s, i);
        if i > 0 && s[i - 1] == '\r' {
            s.take(i - 1)
        } else {
            s.take(i)
        }
    } else {
        s
    }
}

proof fn lemma_first_newline_unique(s: Seq<char>, i: int, k: int)
    requires
        is_first_newline(s, i),
        is_first_newline(s, k),
    ensures
        i == k,
{
    if i < k {
        assert(s[i] != '\n');
    } else if k < i {
        assert(s[k] != '\n');
    }
}

/// The first line of `s` (see [`first_line`]).
pub fn first_line_of(s: &str) -> (r: String)
    ensures
        r@ == first_line(s@),
{
    let cs = chars_of(s);
    let n = cs.len();
    let mut i: usize = 0;
    while i < n
        invariant
            n == cs.len(),
            cs@ == s@,
            i <= n,
            forall|j: int| 0 <= j < i ==> cs@[j] != '\n',
        decreases n - i,
    {
        if cs[i] == '\n' {
            proof {
                assert(is_first_newline(s@, i as int));
                let k = choose|k: int| is_first_newline(s@, k);
                lemma_first_newline_unique(s@, i as int, k);
            }
            let end = if i > 0 && cs[i - 1] == '\r' {
                i - 1
            } else {
                i
            };
            return String::from_str(s.substring_char(0, end));
        }
        i = i + 1;
    }
    assert(!exists|k: int| is_first_newline(s@, k));
    String::from_str(s)
}

/// `i` is the position of the last line feed in `s`.
pub open spec fn is_last_newline(s: Seq<char>, i: int) -> bool {
    &&& 0 <= i < s.len()
    &&& s[i] == '\n'
    &&& forall|j: int| i < j < s.len() ==> s[j] != '\n'
}

/// The text after the last line feed of `s`, or all of `s` when it has none.
pub open spec fn last_segment(s: Seq<char>) -> Seq<char> {
    if exists|i: int| is_last_newline(s, i) {
        s.skip((choose|i: int| is_last_newline(s, i)) + 1)
    } else {
        s
    }
}

/// The last item of `str::lines`: none for the empty text; otherwise the
/// text after the last line ending that is not the final character, with the
/// final line ending (a line feed, or a carriage return and a line feed)
/// removed.
pub open spec fn last_line(s: Seq<char>) -> Option<Seq<char>> {
    if s.len() == 0 {
        None
    } else {
        let terminated = s.last() == '\n';
        let body = if terminated { s.drop_last() } else { s };
        let line = last_segment(body);
        Some(
            if terminated && line.len() > 0 && line.last() == '\r' {
                line.drop_last()
            } else {
                line
            },
        )
    }
}

proof fn lemma_last_newline_unique(s: Seq<char>, i: int, k: int)
    requires
        is_last_newline(s, i),
        is_last_newline(s, k),
    ensures
        i == k,
{
    if i < k {
        assert(s[k] != '\n');
    } else if k < i {
        assert(s[i] != '\n');
    }
}

/// The last line of `s` (see [`last_line`]).
pub fn last_line_of(s: &str) -> (r: Option<String>)
    ensures
        r matches Some(l) ==> last_line(s@) == Some(l@),
        r is None <==> last_line(s@) is None,
{
    let cs = chars_of(s);
    let n = cs.len();
    if n == 0 {
        return None;
    }
    let terminated = cs[n - 1] == '\n';
    let end = if terminated { n - 1 } else { n };
    let ghost body = s@.take(end as int);
    let mut i: usize = end;
    while i > 0
        invariant
            cs@ == s@,
            end <= n,
            n == cs.len(),
            i <= end,
            body == s@.take(end as int),
            forall|j: int| i <= j < end ==> body[j] != '\n',
        ensures
            i <= end,
            forall|j: int| i <= j < end ==> body[j] != '\n',
            i == 0 || s@[i - 1] == '\n',
        decreases i,
    {
        if cs[i - 1] == '\n' {
            break;
        }
        i = i - 1;
    }
    let stop = if terminated && end > i && cs[end - 1] == '\r' {
        end - 1
    } else {
        end
    };
    proof {
        if terminated {
            assert(body =~= s@.drop_last());
        } else {
            assert(body =~= s@);
        }
        let line = s@.subrange(i as int, end as int);
        assert(terminated == (s@.last() == '\n'));
        if end > i {
            assert(line.last() == s@[end - 1]);
        }
        if i > 0 {
            assert(is_last_newline(body, i - 1));
            let k = choose|k: int| is_last_newline(body, k);
            lemma_last_newline_unique(body, i - 1, k);
            assert(body.skip(i as int) =~= line);
            assert(last_segment(body) == line);
        } else {
            assert(!exists|k: int| is_last_newline(body, k));
            assert(body =~= line);
            assert(last_segment(body) == line);
        }
        if stop < end {
            assert(line.drop_last() =~= s@.subrange(i as int, stop as int));
        } else {
            assert(line =~= s@.subrange(i as int, stop as int));
        }
        assert(last_line(s@) == Some(s@.subrange(i as int, stop as int)));
    }
    Some(String::from_str(s.substring_char(i, stop)))
}

/// `pat` occurs in `s` starting at position `i`.
pub open spec fn occurs_at(s: Seq<char>, pat: Seq<char>, i: int) -> bool {
    0 <= i && i + pat.len() <= s.len() && s.subrange(i, i + pat.len()) == pat
}

/// `pat` occurs somewhere in `s`.
pub open spec fn contains(s: Seq<char>, pat: Seq<char>) -> bool {
    exists|i: int| occurs_at(s, pat, i)
}

fn matches_at(s: &Vec<char>, pat: &Vec<char>, i: usize) -> (r: bool)
    requires
        i + pat.len() <= s.len(),
    ensures
        r == occurs_at(s@, pat@, i as int),
{
    let m = pat.len();
    let mut k: usize = 0;
    while k < m
        invariant
            m == pat.len(),
            i + m <= s.len(),
            k <= m,
            forall|j: int| 0 <= j < k ==> s@[i + j] == pat@[j],
        decreases m - k,
    {
        if s[i + k] != pat[k] {
            assert(s@.subrange(i as int, i + m)[k as int] != pat@[k as int]);
            return false;
        }
        k = k + 1;
    }
    assert(s@.subrange(i as int, i + m) =~= pat@);
    true
}

/// Whether `pat` occurs in `s`.
pub fn contains_str(s: &str, pat: &str) -> (r: bool)
    ensures
        r == contains(s@, pat@),
{
    let cs = chars_of(s);
    let ps = chars_of(pat);
    if ps.len() == 0 {
        assert(s@.subrange(0, 0) =~= pat@);
        assert(occurs_at(s@, pat@, 0));
        return true;
    }
    if ps.len() > cs.len() {
        return false;
    }
    let positions = cs.len() - ps.len() + 1;
    let mut i: usize = 0;
    while i < positions
        invariant
            cs@ == s@,
            ps@ == pat@,
            positions == cs.len() - ps.len() + 1,
            ps.len() <= cs.len(),
            i <= positions,
            forall|j: int| 0 <= j < i ==> !occurs_at(s@, pat@, j),
        decreases positions - i,
    {
        if matches_at(&cs, &ps, i) {
            return true;
        }
        i = i + 1;
    }
    assert forall|j: int| !occurs_at(s@, pat@, j) by {
        if 0 <= j && j + pat@.len() <= s@.len() {
            assert(j < positions);
        }
    }
    false
}

/// Every part occurs in the parts joined with a separator.
pub proof fn lemma_joined_contains(parts: Seq<Seq<char>>, sep: Seq<char>, i: int)
    requires
        0 <= i < parts.len(),
    ensures
        contains(joined(parts, sep), parts[i]),
    decreases parts.len(),
{
    if parts.len() == 1 {
        assert(parts[0].subrange(0, parts[0].len() as int) =~= parts[0]);
        assert(occurs_at(joined(parts, sep), parts[i], 0));
    } else {
        let front = joined(parts.drop_last(), sep);
        let whole = front + sep + parts.last();
        assert(joined(parts, sep) == whole);
        if i == parts.len() - 1 {
            let o: int = (front.len() + sep.len()) as int;
            assert(whole.subrange(o, o + parts.last().len()) =~= parts.last());
            assert(occurs_at(whole, parts[i], o));
        } else {
            lemma_joined_contains(parts.drop_last(), sep, i);
            assert(parts.drop_last()[i] == parts[i]);
            let o = choose|o: int| occurs_at(front, parts[i], o);
            assert(whole.subrange(o, o + parts[i].len()) =~= front.subrange(o, o + parts[i].len()));
            assert(occurs_at(whole, parts[i], o));
        }
    }
}

/// A text that occurs in `s` occurs in `prefix + s`.
pub proof fn lemma_contains_after_prefix(prefix: Seq<char>, s: Seq<char>, pat: Seq<char>)
    requires
        contains(s, pat),
    ensures
        contains(prefix + s, pat),
{
    let o = choose|o: int| occurs_at(s, pat, o);
    let p: int = prefix.len() + o;
    assert((prefix + s).subrange(p, p + pat.len()) =~= s.subrange(o, o + pat.len()));
    assert(occurs_at(prefix + s, pat, p));
}

} // verus!
