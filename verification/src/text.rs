use vstd::prelude::*;
use vstd::string::StrSliceExecFns;
use vstd::std_specs::iter::IteratorSpec;

verus! {

/// White space as `char::is_whitespace` defines it (the Unicode `White_Space` property).
pub open spec fn is_space(c: char) -> bool {
    let u: u32 = c as u32;
    ||| 0x9 <= u <= 0xd
    ||| u == 0x20
    ||| u == 0x85
    ||| u == 0xa0
    ||| u == 0x1680
    ||| 0x2000 <= u <= 0x200a
    ||| u == 0x2028
    ||| u == 0x2029
    ||| u == 0x202f
    ||| u == 0x205f
    ||| u == 0x3000
}

/// `String::push`: the contract claims that the string's characters become the old ones
/// followed by `c`, as std documents.
#[verifier::external_body]
fn push_char(s: &mut String, c: char)
    ensures
        final(s)@ == old(s)@.push(c),
{
    s.push(c);
}

/// The characters of `s`, in order.
pub fn chars_of(s: &str) -> (v: Vec<char>)
    ensures
        v@ == s@,
{
    let mut v: Vec<char> = Vec::new();
    let mut it = s.chars();
    loop
        invariant
            it.remaining() == s@.skip(v.len() as int),
            v@ == s@.take(v.len() as int),
            v.len() <= s@.len(),
        decreases s@.len() - v.len(),
    {
        match it.next() {
            Some(c) => {
                v.push(c);
            },
            None => {
                assert(s@.take(v.len() as int) =~= s@);
                return v;
            },
        }
    }
}

/// A string holding exactly the characters `v`.
pub fn string_of(v: &[char]) -> (s: String)
    ensures
        s@ == v@,
{
    let mut s = String::new();
    let mut i: usize = 0;
    while i < v.len()
        invariant
            i <= v.len(),
            s@ == v@.take(i as int),
        decreases v.len() - i,
    {
        push_char(&mut s, v[i]);
        i = i + 1;
        assert(s@ =~= v@.take(i as int));
    }
    assert(v@.take(v.len() as int) =~= v@);
    s
}


/// `char::is_whitespace`.
pub fn is_space_char(c: char) -> (b: bool)
    ensures
        b == is_space(c),
{
    let u: u32 = c as u32;
    (0x9 <= u && u <= 0xd) || u == 0x20 || u == 0x85 || u == 0xa0 || u == 0x1680
        || (0x2000 <= u && u <= 0x200a) || u == 0x2028 || u == 0x2029 || u == 0x202f
        || u == 0x205f || u == 0x3000
}

/// `s` without its leading white space (`str::trim_start`).
pub open spec fn trim_start(s: Seq<char>) -> Seq<char>
    decreases s.len(),
{
    if s.len() > 0 && is_space(s[0]) {
        trim_start(s.drop_first())
    } else {
        s
    }
}

/// `s` without its trailing white space (`str::trim_end`).
pub open spec fn trim_end(s: Seq<char>) -> Seq<char>
    decreases s.len(),
{
    if s.len() > 0 && is_space(s.last()) {
        trim_end(s.drop_last())
    } else {
        s
    }
}

/// `s` without leading and trailing white space (`str::trim`).
pub open spec fn trimmed(s: Seq<char>) -> Seq<char> {
    trim_end(trim_start(s))
}

/// Leading white space may be skipped before trimming the start.
pub proof fn lemma_trim_start_at(s: Seq<char>, i: int)
    requires
        0 <= i <= s.len(),
        forall|k: int| 0 <= k < i ==> is_space(#[trigger] s[k]),
    ensures
        trim_start(s) == trim_start(s.skip(i)),
    decreases i,
{
    if i > 0 {
        let t = s.drop_first();
        assert forall|k: int| 0 <= k < i - 1 implies is_space(#[trigger] t[k]) by {
            assert(t[k] == s[k + 1]);
        }
        lemma_trim_start_at(t, i - 1);
        assert(t.skip(i - 1) =~= s.skip(i));
    } else {
        assert(s.skip(0) =~= s);
    }
}

/// Trailing white space may be dropped before trimming the end.
pub proof fn lemma_trim_end_at(s: Seq<char>, j: int)
    requires
        0 <= j <= s.len(),
        forall|k: int| j <= k < s.len() ==> is_space(#[trigger] s[k]),
    ensures
        trim_end(s) == trim_end(s.take(j)),
    decreases s.len() - j,
{
    if j < s.len() {
        let t = s.drop_last();
        assert forall|k: int| j <= k < t.len() implies is_space(#[trigger] t[k]) by {
            assert(t[k] == s[k]);
        }
        lemma_trim_end_at(t, j);
        assert(t.take(j) =~= s.take(j));
    } else {
        assert(s.take(j) =~= s);
    }
}

/// Where trimming the start cuts: the white space before the index is dropped, and the
/// character at it, if any, is not white space.
pub proof fn trim_start_index(s: Seq<char>) -> (i: int)
    ensures
        0 <= i <= s.len(),
        trim_start(s) == s.skip(i),
        forall|k: int| 0 <= k < i ==> is_space(#[trigger] s[k]),
        i < s.len() ==> !is_space(s[i]),
    decreases s.len(),
{
    if s.len() > 0 && is_space(s[0]) {
        let t = s.drop_first();
        let j = trim_start_index(t);
        assert(t.skip(j) =~= s.skip(j + 1));
        assert forall|k: int| 0 <= k < j + 1 implies is_space(#[trigger] s[k]) by {
            if k > 0 {
                assert(s[k] == t[k - 1]);
            }
        }
        j + 1
    } else {
        assert(s.skip(0) =~= s);
        0
    }
}

/// Where trimming the end cuts: the white space from the index on is dropped, and the
/// character before it, if any, is not white space.
pub proof fn trim_end_index(s: Seq<char>) -> (j: int)
    ensures
        0 <= j <= s.len(),
        trim_end(s) == s.take(j),
        forall|k: int| j <= k < s.len() ==> is_space(#[trigger] s[k]),
        j > 0 ==> !is_space(s[j - 1]),
    decreases s.len(),
{
    if s.len() > 0 && is_space(s.last()) {
        let t = s.drop_last();
        let j = trim_end_index(t);
        assert(t.take(j) =~= s.take(j));
        assert forall|k: int| j <= k < s.len() implies is_space(#[trigger] s[k]) by {
            if k < s.len() - 1 {
                assert(s[k] == t[k]);
            }
        }
        j
    } else {
        assert(s.take(s.len() as int) =~= s);
        s.len() as int
    }
}

/// A text that is not blank once trimmed ends, once trimmed, with a character that is not
/// white space.
pub proof fn lemma_trimmed_ends_solid(s: Seq<char>)
    requires
        trimmed(s).len() > 0,
    ensures
        !is_space(trimmed(s).last()),
{
    let i = trim_start_index(s);
    let t = s.skip(i);
    let j = trim_end_index(t);
    assert(trimmed(s).last() == t[j - 1]);
}

/// Trimming keeps a run that starts with a character that is not white space and is
/// followed, at its last character or later, by one that is not white space either; the
/// result is where the run stands in the trimmed text.
pub proof fn lemma_trimmed_keeps_run(x: Seq<char>, r: Seq<char>, o: int, e: int) -> (p: int)
    requires
        0 <= o,
        o + r.len() <= x.len(),
        x.subrange(o, o + r.len()) == r,
        r.len() > 0,
        !is_space(r[0]),
        o + r.len() - 1 <= e < x.len(),
        !is_space(x[e]),
    ensures
        0 <= p,
        p + r.len() <= trimmed(x).len(),
        trimmed(x).subrange(p, p + r.len()) == r,
{
    let i = trim_start_index(x);
    assert(x[o] == r[0]);
    assert(i <= o);
    let t = x.skip(i);
    let j = trim_end_index(t);
    assert(t[e - i] == x[e]);
    assert(j > e - i);
    let p = o - i;
    assert(trimmed(x) == t.take(j));
    assert(t.take(j).subrange(p, p + r.len()) =~= x.subrange(o, o + r.len()));
    p
}

/// Where a part stands in a joined text.
pub proof fn join_part_offset(parts: Seq<Seq<char>>, sep: Seq<char>, k: int) -> (o: int)
    requires
        0 <= k < parts.len(),
    ensures
        0 <= o,
        o + parts[k].len() <= join(parts, sep).len(),
        join(parts, sep).subrange(o, o + parts[k].len()) == parts[k],
    decreases parts.len(),
{
    if parts.len() == 1 {
        assert(join(parts, sep).subrange(0, parts[k].len() as int) =~= parts[k]);
        0
    } else if k == parts.len() - 1 {
        let j = join(parts.drop_last(), sep) + sep;
        assert(join(parts, sep).subrange(j.len() as int, j.len() + parts[k].len() as int) =~= parts[k]);
        j.len() as int
    } else {
        let o = join_part_offset(parts.drop_last(), sep, k);
        let j = join(parts.drop_last(), sep);
        assert(parts.drop_last()[k] == parts[k]);
        assert(join(parts, sep).subrange(o, o + parts[k].len()) =~= j.subrange(
            o,
            o + parts[k].len(),
        ));
        o
    }
}

/// The bounds `(i, j)` such that `trimmed(v) == v[i..j]`.
pub fn trim_bounds(v: &[char]) -> (r: (usize, usize))
    ensures
        r.0 <= r.1 <= v@.len(),
        trimmed(v@) == v@.subrange(r.0 as int, r.1 as int),
        trim_start(v@) == v@.skip(r.0 as int),
{
    let n: usize = v.len();
    let mut i: usize = 0;
    while i < n && is_space_char(v[i])
        invariant
            i <= n,
            n == v@.len(),
            forall|k: int| 0 <= k < i ==> is_space(#[trigger] v@[k]),
        decreases n - i,
    {
        i = i + 1;
    }
    let mut j: usize = n;
    while j > i && is_space_char(v[j - 1])
        invariant
            i <= j <= n,
            n == v@.len(),
            forall|k: int| j <= k < n ==> is_space(#[trigger] v@[k]),
        decreases j,
    {
        j = j - 1;
    }
    proof {
        let s = v@;
        lemma_trim_start_at(s, i as int);
        let t = s.skip(i as int);
        assert(trim_start(t) == t);
        assert forall|k: int| j - i <= k < t.len() implies is_space(#[trigger] t[k]) by {
            assert(t[k] == s[k + i]);
        }
        lemma_trim_end_at(t, j - i);
        let u = t.take(j - i);
        assert(u =~= s.subrange(i as int, j as int));
        assert(trim_end(u) == u);
    }
    (i, j)
}

/// `str::trim`.
pub fn trim_str(s: &str) -> (r: &str)
    ensures
        r@ == trimmed(s@),
{
    let v = chars_of(s);
    let (i, j) = trim_bounds(v.as_slice());
    s.substring_char(i, j)
}

/// Whether `s.trim().is_empty()`.
pub fn is_blank(s: &str) -> (b: bool)
    ensures
        b == (trimmed(s@).len() == 0),
{
    let v = chars_of(s);
    let (i, j) = trim_bounds(v.as_slice());
    i == j
}


/// `s` with every leading repetition of `p` removed (`str::trim_start_matches`).
pub open spec fn strip_prefixes(s: Seq<char>, p: Seq<char>) -> Seq<char>
    decreases s.len(),
{
    if p.len() > 0 && p.len() <= s.len() && s.take(p.len() as int) == p {
        strip_prefixes(s.skip(p.len() as int), p)
    } else {
        s
    }
}

/// `str::trim_start_matches` with a string pattern.
pub fn trim_start_matches<'a>(s: &'a str, p: &str) -> (r: &'a str)
    ensures
        r@ == strip_prefixes(s@, p@),
{
    let v = chars_of(s);
    let w = chars_of(p);
    let n: usize = v.len();
    let m: usize = w.len();
    if m == 0 {
        return s;
    }
    let mut i: usize = 0;
    assert(s@.skip(0) =~= s@);
    loop
        invariant
            i <= n,
            n == v@.len(),
            m == w@.len(),
            m > 0,
            v@ == s@,
            w@ == p@,
            strip_prefixes(s@, p@) == strip_prefixes(s@.skip(i as int), p@),
        ensures
            i <= n,
            strip_prefixes(s@, p@) == s@.skip(i as int),
        decreases n - i,
    {
        let ghost rest = s@.skip(i as int);
        if m > n - i {
            assert(strip_prefixes(rest, p@) == rest);
            break;
        }
        let mut k: usize = 0;
        let mut same = true;
        while k < m
            invariant
                k <= m,
                i + m <= n,
                n == v@.len(),
                m == w@.len(),
                same == (forall|q: int| 0 <= q < k ==> v@[i + q] == w@[q]),
            decreases m - k,
        {
            if v[i + k] != w[k] {
                same = false;
            }
            k = k + 1;
        }
        if !same {
            assert(rest.take(m as int) != p@) by {
                let q = choose|q: int| 0 <= q < m && v@[i + q] != w@[q];
                assert(rest.take(m as int)[q] == v@[i + q]);
            }
            assert(strip_prefixes(rest, p@) == rest);
            break;
        }
        assert(rest.take(m as int) =~= p@);
        assert(rest.skip(m as int) =~= s@.skip(i + m));
        i = i + m;
    }
    assert(s@.subrange(i as int, n as int) =~= s@.skip(i as int));
    s.substring_char(i, n)
}

/// `s` with every trailing `c` removed (`str::trim_end_matches` with a char).
pub open spec fn strip_suffix_chars(s: Seq<char>, c: char) -> Seq<char>
    decreases s.len(),
{
    if s.len() > 0 && s.last() == c {
        strip_suffix_chars(s.drop_last(), c)
    } else {
        s
    }
}

/// `str::trim_end_matches` with a char pattern.
pub fn trim_end_char(s: &str, c: char) -> (r: &str)
    ensures
        r@ == strip_suffix_chars(s@, c),
{
    let v = chars_of(s);
    let mut j: usize = v.len();
    assert(s@.take(j as int) =~= s@);
    while j > 0 && v[j - 1] == c
        invariant
            j <= v@.len(),
            v@ == s@,
            strip_suffix_chars(s@, c) == strip_suffix_chars(s@.take(j as int), c),
        decreases j,
    {
        let ghost t = s@.take(j as int);
        assert(t.drop_last() =~= s@.take(j - 1));
        j = j - 1;
    }
    s.substring_char(0, j)
}

/// The first `n` characters of `s` (all of them when it is shorter).
pub open spec fn take_chars(s: Seq<char>, n: nat) -> Seq<char> {
    if n < s.len() {
        s.take(n as int)
    } else {
        s
    }
}

/// `s.chars().take(n).collect::<String>()`.
pub fn take_prefix(s: &str, n: usize) -> (r: &str)
    ensures
        r@ == take_chars(s@, n as nat),
{
    let len: usize = s.unicode_len();
    if n < len {
        s.substring_char(0, n)
    } else {
        assert(s@.subrange(0, len as int) =~= s@);
        s.substring_char(0, len)
    }
}

/// The parts, each followed by `sep` but the last (`[String]::join`).
pub open spec fn join(parts: Seq<Seq<char>>, sep: Seq<char>) -> Seq<char>
    decreases parts.len(),
{
    if parts.len() == 0 {
        Seq::empty()
    } else if parts.len() == 1 {
        parts[0]
    } else {
        join(parts.drop_last(), sep) + sep + parts.last()
    }
}

/// The views of a sequence of strings.
pub open spec fn views(v: Seq<String>) -> Seq<Seq<char>> {
    v.map_values(|x: String| x@)
}

/// `parts.join(sep)`.
pub fn join_strings(parts: &Vec<String>, sep: &str) -> (r: String)
    ensures
        r@ == join(views(parts@), sep@),
{
    let mut r = String::new();
    let ghost all = views(parts@);
    let mut i: usize = 0;
    while i < parts.len()
        invariant
            i <= parts.len(),
            all == views(parts@),
            r@ == join(all.take(i as int), sep@),
        decreases parts.len() - i,
    {
        assert(all.take(i + 1).drop_last() =~= all.take(i as int));
        if i != 0 {
            r.append(sep);
        } else {
            assert(r@ =~= Seq::<char>::empty());
        }
        r.append(parts[i].as_str());
        assert(all.take(i + 1).last() == parts@[i as int]@);
        i = i + 1;
        assert(r@ =~= join(all.take(i as int), sep@));
    }
    assert(all.take(parts.len() as int) =~= all);
    r
}

/// Whether `s` ends with `c`.
pub open spec fn ends_with(s: Seq<char>, c: char) -> bool {
    s.len() > 0 && s.last() == c
}

/// Whether `needle` occurs in `hay` as a contiguous run.
pub open spec fn contains_run(hay: Seq<char>, needle: Seq<char>) -> bool {
    exists|i: int|
        0 <= i && i + needle.len() <= hay.len() && #[trigger] hay.subrange(i, i + needle.len())
            == needle
}

/// `hay.contains(needle)` for a string pattern.
pub fn contains_str(hay: &str, needle: &str) -> (b: bool)
    ensures
        b == contains_run(hay@, needle@),
{
    let h = chars_of(hay);
    let w = chars_of(needle);
    let n: usize = h.len();
    let m: usize = w.len();
    if m > n {
        return false;
    }
    let mut i: usize = 0;
    while i <= n - m
        invariant
            n == h@.len(),
            m == w@.len(),
            m <= n,
            i <= n - m + 1,
            h@ == hay@,
            w@ == needle@,
            forall|q: int| 0 <= q < i ==> #[trigger] hay@.subrange(q, q + m) != needle@,
        decreases n - i,
    {
        let mut k: usize = 0;
        let mut same = true;
        while k < m
            invariant
                k <= m,
                i + m <= n,
                n == h@.len(),
                m == w@.len(),
                same == (forall|q: int| 0 <= q < k ==> h@[i + q] == w@[q]),
            decreases m - k,
        {
            if h[i + k] != w[k] {
                same = false;
            }
            k = k + 1;
        }
        if same {
            assert(hay@.subrange(i as int, i + m) =~= needle@);
            return true;
        }
        assert(hay@.subrange(i as int, i + m) != needle@) by {
            let q = choose|q: int| 0 <= q < m && h@[i + q] != w@[q];
            assert(hay@.subrange(i as int, i + m)[q] == h@[i + q]);
        }
        i = i + 1;
    }
    false
}

/// `s.contains(c)` for a char pattern.
pub fn contains_char(s: &str, c: char) -> (b: bool)
    ensures
        b == s@.contains(c),
{
    let v = chars_of(s);
    let mut i: usize = 0;
    while i < v.len()
        invariant
            i <= v@.len(),
            v@ == s@,
            forall|k: int| 0 <= k < i ==> v@[k] != c,
        decreases v.len() - i,
    {
        if v[i] == c {
            return true;
        }
        i = i + 1;
    }
    false
}

/// Whether two strings hold the same characters.
pub fn str_eq(a: &str, b: &str) -> (r: bool)
    ensures
        r == (a@ == b@),
{
    let v = chars_of(a);
    let w = chars_of(b);
    if v.len() != w.len() {
        return false;
    }
    let mut i: usize = 0;
    while i < v.len()
        invariant
            i <= v@.len(),
            v@.len() == w@.len(),
            v@ == a@,
            w@ == b@,
            forall|k: int| 0 <= k < i ==> v@[k] == w@[k],
        decreases v.len() - i,
    {
        if v[i] != w[i] {
            return false;
        }
        i = i + 1;
    }
    assert(v@ =~= w@);
    true
}


/// Whether every character of `s` is white space.
pub open spec fn all_space(s: Seq<char>) -> bool {
    forall|i: int| 0 <= i < s.len() ==> is_space(#[trigger] s[i])
}

proof fn lemma_trim_start_blank(s: Seq<char>)
    ensures
        trim_start(s).len() == 0 <==> all_space(s),
        trim_start(s).len() > 0 ==> !is_space(trim_start(s)[0]),
    decreases s.len(),
{
    if s.len() > 0 && is_space(s[0]) {
        let t = s.drop_first();
        lemma_trim_start_blank(t);
        if all_space(t) {
            assert forall|i: int| 0 <= i < s.len() implies is_space(#[trigger] s[i]) by {
                if i > 0 {
                    assert(s[i] == t[i - 1]);
                }
            }
        }
        if all_space(s) {
            assert forall|i: int| 0 <= i < t.len() implies is_space(#[trigger] t[i]) by {
                assert(t[i] == s[i + 1]);
            }
        }
    }
}

proof fn lemma_trim_end_keeps_first(t: Seq<char>)
    requires
        t.len() > 0,
        !is_space(t[0]),
    ensures
        trim_end(t).len() > 0,
    decreases t.len(),
{
    if is_space(t.last()) {
        lemma_trim_end_keeps_first(t.drop_last());
    }
}

/// A string trims to nothing exactly when all of it is white space.
pub proof fn lemma_trimmed_blank(s: Seq<char>)
    ensures
        trimmed(s).len() == 0 <==> all_space(s),
{
    lemma_trim_start_blank(s);
    let t = trim_start(s);
    if t.len() > 0 {
        lemma_trim_end_keeps_first(t);
    }
}

proof fn lemma_line_scan_blank(s: Seq<char>)
    ensures
        (line_scan(s).0.len() == 0 && trimmed(line_scan(s).1).len() == 0) <==> all_space(s),
    decreases s.len(),
{
    if s.len() > 0 {
        let p = s.drop_last();
        let c = s.last();
        lemma_line_scan_blank(p);
        let prev = line_scan(p);
        lemma_trimmed_blank(prev.1);
        assert(all_space(s) <==> (all_space(p) && is_space(c))) by {
            if all_space(p) && is_space(c) {
                assert forall|i: int| 0 <= i < s.len() implies is_space(#[trigger] s[i]) by {
                    if i < p.len() {
                        assert(s[i] == p[i]);
                    }
                }
            }
            if all_space(s) {
                assert forall|i: int| 0 <= i < p.len() implies is_space(#[trigger] p[i]) by {
                    assert(p[i] == s[i]);
                }
                assert(is_space(s[s.len() - 1]));
            }
        }
        if c == '\n' {
            lemma_trimmed_blank(Seq::<char>::empty());
            assert(is_space(c));
        } else {
            let cur = prev.1.push(c);
            lemma_trimmed_blank(cur);
            assert(all_space(cur) <==> (all_space(prev.1) && is_space(c))) by {
                if all_space(prev.1) && is_space(c) {
                    assert forall|i: int| 0 <= i < cur.len() implies is_space(#[trigger] cur[i]) by {
                        if i < prev.1.len() {
                            assert(cur[i] == prev.1[i]);
                        }
                    }
                }
                if all_space(cur) {
                    assert forall|i: int| 0 <= i < prev.1.len() implies is_space(#[trigger] prev.1[i]) by {
                        assert(prev.1[i] == cur[i]);
                    }
                    assert(is_space(cur[cur.len() - 1]));
                }
            }
        }
    } else {
        lemma_trimmed_blank(Seq::<char>::empty());
    }
}

/// A string has a non-blank line exactly when it is not blank.
pub proof fn lemma_nonblank_lines_exist(s: Seq<char>)
    ensures
        nonblank_lines(s).len() > 0 <==> trimmed(s).len() > 0,
{
    lemma_line_scan_blank(s);
    lemma_trimmed_blank(s);
}

/// The characters `v[i..j]` as a string.
pub fn string_of_range(v: &[char], i: usize, j: usize) -> (s: String)
    requires
        i <= j <= v@.len(),
    ensures
        s@ == v@.subrange(i as int, j as int),
{
    let mut s = String::new();
    let mut k: usize = i;
    while k < j
        invariant
            i <= k <= j,
            j <= v@.len(),
            s@ == v@.subrange(i as int, k as int),
        decreases j - k,
    {
        push_char(&mut s, v[k]);
        k = k + 1;
        assert(s@ =~= v@.subrange(i as int, k as int));
    }
    s
}

/// Reading `s` line by line: the non-blank lines finished so far, each trimmed,
/// and the line still being read.
pub open spec fn line_scan(s: Seq<char>) -> (Seq<Seq<char>>, Seq<char>)
    decreases s.len(),
{
    if s.len() == 0 {
        (Seq::empty(), Seq::empty())
    } else {
        let prev = line_scan(s.drop_last());
        if s.last() == '\n' {
            (
                if trimmed(prev.1).len() > 0 {
                    prev.0.push(trimmed(prev.1))
                } else {
                    prev.0
                },
                Seq::empty(),
            )
        } else {
            (prev.0, prev.1.push(s.last()))
        }
    }
}

/// The non-blank lines of `s`, each trimmed, in order
/// (`s.lines().map(str::trim).filter(|l| !l.is_empty())`).
pub open spec fn nonblank_lines(s: Seq<char>) -> Seq<Seq<char>> {
    let last = line_scan(s);
    if trimmed(last.1).len() > 0 {
        last.0.push(trimmed(last.1))
    } else {
        last.0
    }
}

/// Appends `cur`, trimmed, to `lines` unless it is blank.
fn finish_line(lines: &mut Vec<String>, cur: &Vec<char>)
    ensures
        views(final(lines)@) == (if trimmed(cur@).len() > 0 {
            views(old(lines)@).push(trimmed(cur@))
        } else {
            views(old(lines)@)
        }),
{
    let (i, j) = trim_bounds(cur.as_slice());
    if i < j {
        let line = string_of_range(cur.as_slice(), i, j);
        lines.push(line);
        assert(views(final(lines)@) =~= views(old(lines)@).push(trimmed(cur@)));
    }
}

/// The non-blank lines of `s`, each trimmed.
pub fn nonblank_lines_of(s: &str) -> (r: Vec<String>)
    ensures
        views(r@) == nonblank_lines(s@),
{
    let v = chars_of(s);
    let mut lines: Vec<String> = Vec::new();
    let mut cur: Vec<char> = Vec::new();
    let mut i: usize = 0;
    assert(s@.take(0) =~= Seq::<char>::empty());
    assert(views(lines@) =~= Seq::<Seq<char>>::empty());
    while i < v.len()
        invariant
            i <= v@.len(),
            v@ == s@,
            (views(lines@), cur@) == line_scan(s@.take(i as int)),
        decreases v.len() - i,
    {
        let c = v[i];
        assert(s@.take(i + 1).drop_last() =~= s@.take(i as int));
        if c == '\n' {
            finish_line(&mut lines, &cur);
            cur = Vec::new();
        } else {
            cur.push(c);
        }
        i = i + 1;
    }
    assert(s@.take(v.len() as int) =~= s@);
    finish_line(&mut lines, &cur);
    lines
}

/// The index of the first `c` in `s`, or -1.
pub open spec fn first_index(s: Seq<char>, c: char) -> int
    decreases s.len(),
{
    if s.len() == 0 {
        -1
    } else if s[0] == c {
        0
    } else {
        let r = first_index(s.drop_first(), c);
        if r < 0 {
            -1
        } else {
            r + 1
        }
    }
}

/// The index of the last `c` in `s`, or -1.
pub open spec fn last_index(s: Seq<char>, c: char) -> int
    decreases s.len(),
{
    if s.len() == 0 {
        -1
    } else if s.last() == c {
        s.len() - 1
    } else {
        last_index(s.drop_last(), c)
    }
}

proof fn lemma_first_index(s: Seq<char>, c: char, i: int)
    requires
        0 <= i <= s.len(),
        forall|k: int| 0 <= k < i ==> s[k] != c,
        i < s.len() ==> s[i] == c,
    ensures
        first_index(s, c) == (if i == s.len() {
            -1
        } else {
            i
        }),
    decreases i,
{
    if i > 0 {
        let t = s.drop_first();
        assert forall|k: int| 0 <= k < i - 1 implies t[k] != c by {
            assert(t[k] == s[k + 1]);
        }
        lemma_first_index(t, c, i - 1);
    }
}

proof fn lemma_last_index(s: Seq<char>, c: char, j: int)
    requires
        0 <= j <= s.len(),
        forall|k: int| j <= k < s.len() ==> s[k] != c,
        j > 0 ==> s[j - 1] == c,
    ensures
        last_index(s, c) == j - 1,
    decreases s.len() - j,
{
    if j < s.len() {
        let t = s.drop_last();
        assert forall|k: int| j <= k < t.len() implies t[k] != c by {
            assert(t[k] == s[k]);
        }
        lemma_last_index(t, c, j);
    } else if j == 0 {
    }
}

/// `str::find` for a char, counted in characters.
pub fn find_char(v: &[char], c: char) -> (r: Option<usize>)
    ensures
        match r {
            Some(i) => i == first_index(v@, c) && i < v@.len(),
            None => first_index(v@, c) == -1,
        },
{
    let mut i: usize = 0;
    while i < v.len()
        invariant
            i <= v@.len(),
            forall|k: int| 0 <= k < i ==> v@[k] != c,
        decreases v.len() - i,
    {
        if v[i] == c {
            proof {
                lemma_first_index(v@, c, i as int);
            }
            return Some(i);
        }
        i = i + 1;
    }
    proof {
        lemma_first_index(v@, c, i as int);
    }
    None
}

/// `str::rfind` for a char, counted in characters.
pub fn rfind_char(v: &[char], c: char) -> (r: Option<usize>)
    ensures
        match r {
            Some(i) => i == last_index(v@, c) && i < v@.len(),
            None => last_index(v@, c) == -1,
        },
{
    let mut j: usize = v.len();
    while j > 0 && v[j - 1] != c
        invariant
            j <= v@.len(),
            forall|k: int| j <= k < v@.len() ==> v@[k] != c,
        decreases j,
    {
        j = j - 1;
    }
    proof {
        lemma_last_index(v@, c, j as int);
    }
    if j == 0 {
        None
    } else {
        Some(j - 1)
    }
}

/// The decimal digit `d`.
pub open spec fn digit(d: nat) -> char {
    (48 + d) as char
}

/// The decimal representation of `n` (`format!("{}", n)`).
pub open spec fn decimal(n: nat) -> Seq<char>
    decreases n,
{
    if n < 10 {
        seq![digit(n)]
    } else {
        decimal(n / 10).push(digit(n % 10))
    }
}

fn push_decimal(out: &mut String, n: usize)
    ensures
        final(out)@ == old(out)@ + decimal(n as nat),
    decreases n,
{
    if n >= 10 {
        push_decimal(out, n / 10);
    }
    let d: u8 = (n % 10) as u8;
    let c: char = (48u8 + d) as char;
    assert(c == digit((n % 10) as nat));
    push_char(out, c);
    assert(final(out)@ =~= old(out)@ + decimal(n as nat));
}

/// `n.to_string()`.
pub fn decimal_string(n: usize) -> (s: String)
    ensures
        s@ == decimal(n as nat),
{
    let mut s = String::new();
    push_decimal(&mut s, n);
    assert(s@ =~= decimal(n as nat));
    s
}


/// `s.ends_with(c)` for a char pattern.
pub fn ends_with_char(s: &str, c: char) -> (b: bool)
    ensures
        b == ends_with(s@, c),
{
    let v = chars_of(s);
    v.len() > 0 && v[v.len() - 1] == c
}

} // verus!
