use vstd::prelude::*;

verus! {

/// Unicode `White_Space`: the characters that `char::is_whitespace` accepts and that
/// `str::trim` removes.
pub open spec fn is_whitespace(c: char) -> bool {
    let u = c as u32;
    ||| 0x09 <= u <= 0x0D
    ||| u == 0x20
    ||| u == 0x85
    ||| u == 0xA0
    ||| u == 0x1680
    ||| 0x2000 <= u <= 0x200A
    ||| u == 0x2028
    ||| u == 0x2029
    ||| u == 0x202F
    ||| u == 0x205F
    ||| u == 0x3000
}

/// Whether `c` is Unicode white space.
pub fn char_is_whitespace(c: char) -> (b: bool)
    ensures
        b == is_whitespace(c),
{
    let u = c as u32;
    (0x09 <= u && u <= 0x0D) || u == 0x20 || u == 0x85 || u == 0xA0 || u == 0x1680 || (0x2000
        <= u && u <= 0x200A) || u == 0x2028 || u == 0x2029 || u == 0x202F || u == 0x205F || u
        == 0x3000
}

/// The characters of `s`, in order.
pub fn chars_of(s: &str) -> (v: Vec<char>)
    ensures
        v@ == s@,
{
    let mut v: Vec<char> = Vec::new();
    for c in it: s.chars()
        invariant
            v@ == it.seq().take(it.index()),
    {
        v.push(c);
    }
    v
}


/// `String::push` from std: appends the one character `c` to `s`.
#[verifier::external_body]
pub(crate) fn push_char(s: &mut String, c: char)
    ensures
        final(s)@ == old(s)@.push(c),
{
    s.push(c);
}

/// The string made of the characters `v[from..to]`.
pub fn string_from_chars(v: &Vec<char>, from: usize, to: usize) -> (s: String)
    requires
        from <= to <= v@.len(),
    ensures
        s@ == v@.subrange(from as int, to as int),
{
    let mut s = String::new();
    let mut i = from;
    while i < to
        invariant
            from <= i <= to <= v@.len(),
            s@ == v@.subrange(from as int, i as int),
        decreases to - i,
    {
        push_char(&mut s, v[i]);
        assert(v@.subrange(from as int, i + 1) == v@.subrange(from as int, i as int).push(v@[i as int]));
        i = i + 1;
    }
    s
}

/// `s` without its leading white space.
pub open spec fn trim_start(s: Seq<char>) -> Seq<char>
    decreases s.len(),
{
    if s.len() > 0 && is_whitespace(s[0]) {
        trim_start(s.drop_first())
    } else {
        s
    }
}

/// `s` without its trailing white space.
pub open spec fn trim_end(s: Seq<char>) -> Seq<char>
    decreases s.len(),
{
    if s.len() > 0 && is_whitespace(s.last()) {
        trim_end(s.drop_last())
    } else {
        s
    }
}

/// `s` without leading or trailing white space, as `str::trim` gives it.
pub open spec fn trim(s: Seq<char>) -> Seq<char> {
    trim_end(trim_start(s))
}

/// Every character of `s` is white space (so `s.trim()` is empty).
pub open spec fn is_blank(s: Seq<char>) -> bool {
    forall|i: int| 0 <= i < s.len() ==> is_whitespace(#[trigger] s[i])
}

/// The bounds `[i, j)` of the trimmed part of `v[from..to]`.
fn trim_bounds(v: &Vec<char>, from: usize, to: usize) -> (r: (usize, usize))
    requires
        from <= to <= v@.len(),
    ensures
        from <= r.0 <= r.1 <= to,
        v@.subrange(r.0 as int, r.1 as int) == trim(v@.subrange(from as int, to as int)),
{
    let ghost whole = v@.subrange(from as int, to as int);
    let mut i = from;
    while i < to && char_is_whitespace(v[i])
        invariant
            from <= i <= to <= v@.len(),
            trim_start(whole) == trim_start(v@.subrange(i as int, to as int)),
        decreases to - i,
    {
        assert(v@.subrange(i as int, to as int).drop_first() == v@.subrange(i + 1, to as int));
        i = i + 1;
    }
    assert(trim_start(whole) == v@.subrange(i as int, to as int));
    let mut j = to;
    while j > i && char_is_whitespace(v[j - 1])
        invariant
            from <= i <= j <= to <= v@.len(),
            trim(whole) == trim_end(v@.subrange(i as int, j as int)),
        decreases j - i,
    {
        assert(v@.subrange(i as int, j as int).drop_last() == v@.subrange(i as int, j - 1));
        j = j - 1;
    }
    (i, j)
}

/// `s` without leading or trailing white space (`str::trim`).
pub fn trim_whitespace(s: &str) -> (r: String)
    ensures
        r@ == trim(s@),
{
    let v = chars_of(s);
    let (i, j) = trim_bounds(&v, 0, v.len());
    assert(v@.subrange(0, v@.len() as int) == v@);
    string_from_chars(&v, i, j)
}

/// Whether `s` holds only white space (`s.trim().is_empty()`).
pub fn is_blank_str(s: &str) -> (b: bool)
    ensures
        b == is_blank(s@),
{
    let v = chars_of(s);
    let mut i: usize = 0;
    while i < v.len()
        invariant
            i <= v@.len(),
            v@ == s@,
            forall|k: int| 0 <= k < i ==> is_whitespace(#[trigger] v@[k]),
        decreases v.len() - i,
    {
        if !char_is_whitespace(v[i]) {
            return false;
        }
        i = i + 1;
    }
    true
}

/// A trimmed string is empty exactly when the string is blank.
pub proof fn lemma_trim_empty_iff_blank(s: Seq<char>)
    ensures
        trim(s).len() == 0 <==> is_blank(s),
    decreases s.len(),
{
    lemma_trim_start_blank(s);
    lemma_trim_end_empty(trim_start(s));
}

proof fn lemma_trim_start_shape(s: Seq<char>) -> (i: int)
    ensures
        0 <= i <= s.len(),
        trim_start(s) == s.skip(i),
        forall|k: int| 0 <= k < i ==> is_whitespace(#[trigger] s[k]),
        i < s.len() ==> !is_whitespace(s[i]),
    decreases s.len(),
{
    if s.len() > 0 && is_whitespace(s[0]) {
        let r = s.drop_first();
        let i0 = lemma_trim_start_shape(r);
        assert(r.skip(i0) =~= s.skip(i0 + 1));
        assert forall|k: int| 0 <= k < i0 + 1 implies is_whitespace(#[trigger] s[k]) by {
            if k > 0 {
                assert(s[k] == r[k - 1]);
            }
        }
        if i0 + 1 < s.len() {
            assert(s[i0 + 1] == r[i0]);
        }
        i0 + 1
    } else {
        assert(s.skip(0) =~= s);
        0
    }
}

proof fn lemma_trim_end_shape(s: Seq<char>) -> (j: int)
    ensures
        0 <= j <= s.len(),
        trim_end(s) == s.subrange(0, j),
        forall|k: int| j <= k < s.len() ==> is_whitespace(#[trigger] s[k]),
        j > 0 ==> !is_whitespace(s[j - 1]),
    decreases s.len(),
{
    if s.len() > 0 && is_whitespace(s.last()) {
        let r = s.drop_last();
        let j0 = lemma_trim_end_shape(r);
        assert(r.subrange(0, j0) =~= s.subrange(0, j0));
        assert forall|k: int| j0 <= k < s.len() implies is_whitespace(#[trigger] s[k]) by {
            if k < s.len() - 1 {
                assert(s[k] == r[k]);
            }
        }
        if j0 > 0 {
            assert(s[j0 - 1] == r[j0 - 1]);
        }
        j0
    } else {
        assert(s.subrange(0, s.len() as int) =~= s);
        s.len() as int
    }
}

/// Trimming keeps the middle of `s` between its leading and its trailing white space: the
/// result is a piece `s[i..j]` with only white space before and after it, which starts and
/// ends with a character that is no white space when it is not empty.
pub proof fn lemma_trim_is_middle(s: Seq<char>)
    ensures
        exists|i: int, j: int|
            {
                &&& 0 <= i <= j <= s.len()
                &&& trim(s) == s.subrange(i, j)
                &&& forall|k: int| 0 <= k < i ==> is_whitespace(#[trigger] s[k])
                &&& forall|k: int| j <= k < s.len() ==> is_whitespace(#[trigger] s[k])
                &&& i < j ==> !is_whitespace(s[i]) && !is_whitespace(s[j - 1])
            },
{
    let i = lemma_trim_start_shape(s);
    let t = s.skip(i);
    let j0 = lemma_trim_end_shape(t);
    let j = i + j0;
    assert(t.subrange(0, j0) =~= s.subrange(i, j));
    assert forall|k: int| j <= k < s.len() implies is_whitespace(#[trigger] s[k]) by {
        assert(s[k] == t[k - i]);
    }
    if i < j {
        assert(s[i] == t[0]);
        if j0 < t.len() {
        }
        assert(s[j - 1] == t[j0 - 1]);
    }
}

/// The non-blank lines are exactly the lines that are not blank, in their order.
pub proof fn lemma_non_blank_keeps_exactly_non_blank(ls: Seq<Seq<char>>)
    ensures
        forall|x: Seq<char>| #[trigger] non_blank(ls).contains(x) <==> (ls.contains(x) && !is_blank(x)),
    decreases ls.len(),
{
    if ls.len() > 0 {
        let r = ls.drop_first();
        lemma_non_blank_keeps_exactly_non_blank(r);
        assert forall|x: Seq<char>| #[trigger] non_blank(ls).contains(x) <==> (ls.contains(x)
            && !is_blank(x)) by {
            if non_blank(ls).contains(x) {
                let k = choose|k: int| 0 <= k < non_blank(ls).len() && non_blank(ls)[k] == x;
                if !is_blank(ls[0]) && k == 0 {
                    assert(ls[0] == x);
                    assert(ls.contains(x));
                } else {
                    if is_blank(ls[0]) {
                        assert(non_blank(r)[k] == x);
                        assert(non_blank(r).contains(x));
                    } else {
                        assert(non_blank(ls)[k] == non_blank(r)[k - 1]);
                        assert(non_blank(r).contains(x));
                    }
                    assert(r.contains(x));
                    let m = choose|m: int| 0 <= m < r.len() && r[m] == x;
                    assert(ls[m + 1] == x);
                    assert(ls.contains(x));
                }
            }
            if ls.contains(x) && !is_blank(x) {
                let m = choose|m: int| 0 <= m < ls.len() && ls[m] == x;
                if m == 0 {
                    assert(non_blank(ls)[0] == x);
                    assert(non_blank(ls).contains(x));
                } else {
                    assert(r[m - 1] == x);
                    assert(r.contains(x));
                    assert(non_blank(r).contains(x));
                    let k = choose|k: int| 0 <= k < non_blank(r).len() && non_blank(r)[k] == x;
                    if is_blank(ls[0]) {
                        assert(non_blank(ls)[k] == x);
                    } else {
                        assert(non_blank(ls)[k + 1] == x);
                    }
                    assert(non_blank(ls).contains(x));
                }
            }
        }
    }
}

proof fn lemma_trim_start_blank(s: Seq<char>)
    ensures
        is_blank(s) <==> trim_start(s).len() == 0,
        trim_start(s).len() > 0 ==> !is_whitespace(trim_start(s)[0]),
    decreases s.len(),
{
    if s.len() > 0 && is_whitespace(s[0]) {
        lemma_trim_start_blank(s.drop_first());
        if is_blank(s.drop_first()) {
            assert forall|i: int| 0 <= i < s.len() implies is_whitespace(#[trigger] s[i]) by {
                if i > 0 {
                    assert(s[i] == s.drop_first()[i - 1]);
                }
            }
        }
        if is_blank(s) {
            assert forall|i: int| 0 <= i < s.drop_first().len() implies is_whitespace(
                #[trigger] s.drop_first()[i],
            ) by {
                assert(s.drop_first()[i] == s[i + 1]);
            }
        }
    } else if s.len() > 0 {
        assert(!is_whitespace(s[0]));
    }
}

proof fn lemma_trim_end_empty(s: Seq<char>)
    requires
        s.len() > 0 ==> !is_whitespace(s[0]),
    ensures
        trim_end(s).len() == 0 <==> s.len() == 0,
    decreases s.len(),
{
    if s.len() > 0 && is_whitespace(s.last()) {
        if s.len() == 1 {
            assert(s.last() == s[0]);
        } else {
            assert(s.drop_last()[0] == s[0]);
            lemma_trim_end_empty(s.drop_last());
        }
    }
}


/// Length of the first line of `s`: the characters before the first `'\n'`, or all of them.
pub open spec fn first_line_len(s: Seq<char>) -> nat
    decreases s.len(),
{
    if s.len() == 0 || s[0] == '\n' {
        0
    } else {
        1 + first_line_len(s.drop_first())
    }
}

/// A line that a `'\n'` ends, without the `'\r'` of a `"\r\n"` ending.
pub open spec fn strip_cr(line: Seq<char>) -> Seq<char> {
    if line.len() > 0 && line.last() == '\r' {
        line.drop_last()
    } else {
        line
    }
}

/// The lines of `s` as `str::lines` gives them: split at `'\n'` and `"\r\n"`, with no
/// empty line after a final line ending; a `'\r'` at the very end stays in the last line.
pub open spec fn lines(s: Seq<char>) -> Seq<Seq<char>>
    decreases s.len(),
{
    if s.len() == 0 {
        seq![]
    } else {
        let k = first_line_len(s);
        if k < s.len() {
            seq![strip_cr(s.subrange(0, k as int))] + lines(s.skip(k + 1 as int))
        } else {
            seq![s]
        }
    }
}

/// The lines of `ls` that are not blank, in order.
pub open spec fn non_blank(ls: Seq<Seq<char>>) -> Seq<Seq<char>>
    decreases ls.len(),
{
    if ls.len() == 0 {
        seq![]
    } else if is_blank(ls[0]) {
        non_blank(ls.drop_first())
    } else {
        seq![ls[0]] + non_blank(ls.drop_first())
    }
}

proof fn lemma_first_line_len(s: Seq<char>, k: int)
    requires
        0 <= k <= s.len(),
        forall|i: int| 0 <= i < k ==> s[i] != '\n',
        k == s.len() || s[k] == '\n',
    ensures
        first_line_len(s) == k,
    decreases k,
{
    if k > 0 {
        assert(s[0] != '\n');
        lemma_first_line_len(s.drop_first(), k - 1);
    }
}

/// The views of a vector of strings.
pub open spec fn views(v: Seq<String>) -> Seq<Seq<char>> {
    v.map_values(|l: String| l@)
}

/// The lines of `content` that hold something besides white space, in order
/// (`content.lines().filter(|l| !l.trim().is_empty())`).
pub fn non_blank_lines(content: &str) -> (r: Vec<String>)
    ensures
        views(r@) == non_blank(lines(content@)),
{
    let v = chars_of(content);
    let n = v.len();
    let mut out: Vec<String> = Vec::new();
    let mut start: usize = 0;
    assert(v@.skip(0) == v@);
    while start < n
        invariant
            n == v@.len(),
            v@ == content@,
            start <= n,
            non_blank(lines(v@)) == views(out@) + non_blank(lines(v@.skip(start as int))),
        decreases n - start,
    {
        let ghost rest = v@.skip(start as int);
        let mut j = start;
        while j < n && v[j] != '\n'
            invariant
                start <= j <= n,
                n == v@.len(),
                forall|i: int| start <= i < j ==> v@[i] != '\n',
            decreases n - j,
        {
            j = j + 1;
        }
        proof {
            assert forall|i: int| 0 <= i < j - start implies rest[i] != '\n' by {
                assert(rest[i] == v@[start + i]);
            }
            if j < n {
                assert(rest[j - start] == v@[j as int]);
            }
            lemma_first_line_len(rest, j - start);
            assert(rest.subrange(0, j - start) == v@.subrange(start as int, j as int));
        }
        let ends = j < n && j > start && v[j - 1] == '\r';
        let end = if ends { j - 1 } else { j };
        let line = string_from_chars(&v, start, end);
        proof {
            let raw = v@.subrange(start as int, j as int);
            if j < n {
                if ends {
                    assert(raw.drop_last() == v@.subrange(start as int, j - 1));
                }
                assert(line@ == strip_cr(raw));
            } else {
                assert(rest == raw);
            }
        }
        let blank = is_blank_str(line.as_str());
        let ghost before = out@;
        if !blank {
            out.push(line);
        }
        proof {
            assert(views(out@) == views(before) + (if blank { seq![] } else { seq![line@] })) by {
                if !blank {
                    assert(views(out@) == views(before).push(line@));
                }
            }
        }
        if j >= n {
            proof {
                assert(lines(rest) == seq![line@]);
                assert(lines(rest).drop_first() == Seq::<Seq<char>>::empty());
                assert(non_blank(Seq::<Seq<char>>::empty()) == Seq::<Seq<char>>::empty());
                assert(v@.skip(n as int) == Seq::<char>::empty());
            }
            start = n;
        } else {
            proof {
                assert(rest.skip(j - start + 1) == v@.skip(j + 1));
                assert(lines(rest) == seq![line@] + lines(v@.skip(j + 1)));
                assert((seq![line@] + lines(v@.skip(j + 1))).drop_first() == lines(v@.skip(j + 1)));
            }
            start = j + 1;
        }
    }
    proof {
        assert(v@.skip(n as int) == Seq::<char>::empty());
    }
    out
}


/// `c` with an ASCII upper-case letter turned into its lower-case letter.
pub open spec fn ascii_lower(c: char) -> char {
    if 'A' <= c && c <= 'Z' {
        ((c as u32) + 32) as char
    } else {
        c
    }
}

/// `s` ends with `suffix` once ASCII letters are compared without case.
///
/// For a suffix of ASCII lower-case letters, digits and `'.'` this is the same test as
/// `s.to_lowercase().ends_with(suffix)`: no other character lower-cases to one of these.
pub open spec fn ends_with_ignore_ascii_case(s: Seq<char>, suffix: Seq<char>) -> bool {
    &&& suffix.len() <= s.len()
    &&& forall|k: int|
        0 <= k < suffix.len() ==> ascii_lower(#[trigger] s[s.len() - suffix.len() + k])
            == suffix[k]
}

fn lower_matches(c: char, d: char) -> (b: bool)
    ensures
        b == (ascii_lower(c) == d),
{
    let cu = c as u32;
    let lu = if 'A' <= c && c <= 'Z' { cu + 32 } else { cu };
    lu == d as u32
}

/// Whether `s` ends with `suffix`, ASCII letters compared without case.
pub fn str_ends_with_ignore_ascii_case(s: &str, suffix: &str) -> (b: bool)
    ensures
        b == ends_with_ignore_ascii_case(s@, suffix@),
{
    let v = chars_of(s);
    let w = chars_of(suffix);
    if w.len() > v.len() {
        return false;
    }
    let off = v.len() - w.len();
    let mut k: usize = 0;
    while k < w.len()
        invariant
            v@ == s@,
            w@ == suffix@,
            w@.len() <= v@.len(),
            off == v@.len() - w@.len(),
            off + w@.len() == v.len(),
            k <= w@.len(),
            forall|i: int| 0 <= i < k ==> ascii_lower(#[trigger] v@[off + i]) == w@[i],
        decreases w.len() - k,
    {
        if !lower_matches(v[off + k], w[k]) {
            assert(ascii_lower(s@[s@.len() - suffix@.len() + k]) != suffix@[k as int]);
            return false;
        }
        k = k + 1;
    }
    true
}

/// `s` with every `"&amp;"` replaced by `"&"`, scanning from the left (`str::replace`).
pub open spec fn unescape_amp(s: Seq<char>) -> Seq<char>
    decreases s.len(),
{
    if s.len() == 0 {
        seq![]
    } else if s.len() >= 5 && s.subrange(0, 5) == seq!['&', 'a', 'm', 'p', ';'] {
        seq!['&'] + unescape_amp(s.skip(5))
    } else {
        seq![s[0]] + unescape_amp(s.skip(1))
    }
}

/// `s` with every `"&amp;"` replaced by `"&"` (`s.replace("&amp;", "&")`).
pub fn replace_amp_entity(s: &str) -> (r: String)
    ensures
        r@ == unescape_amp(s@),
{
    let v = chars_of(s);
    let n = v.len();
    let mut out = String::new();
    let mut i: usize = 0;
    assert(v@.skip(0) == v@);
    while i < n
        invariant
            n == v@.len(),
            v@ == s@,
            i <= n,
            unescape_amp(v@) == out@ + unescape_amp(v@.skip(i as int)),
        decreases n - i,
    {
        let ghost rest = v@.skip(i as int);
        let entity = n - i >= 5 && v[i] == '&' && v[i + 1] == 'a' && v[i + 2] == 'm' && v[i + 3]
            == 'p' && v[i + 4] == ';';
        proof {
            if i + 5 <= n {
                let head = rest.subrange(0, 5);
                assert(head[0] == v@[i as int] && head[1] == v@[i + 1] && head[2] == v@[i + 2]
                    && head[3] == v@[i + 3] && head[4] == v@[i + 4]);
                if entity {
                    assert(head =~= seq!['&', 'a', 'm', 'p', ';']);
                } else {
                    assert(head != seq!['&', 'a', 'm', 'p', ';'] ) by {
                        if head == seq!['&', 'a', 'm', 'p', ';'] {
                            assert(head[0] == '&' && head[1] == 'a' && head[2] == 'm'
                                && head[3] == 'p' && head[4] == ';');
                        }
                    }
                }
            }
        }
        if entity {
            push_char(&mut out, '&');
            assert(rest.skip(5) == v@.skip(i + 5));
            i = i + 5;
        } else {
            push_char(&mut out, v[i]);
            assert(rest.skip(1) == v@.skip(i + 1));
            assert(rest[0] == v@[i as int]);
            i = i + 1;
        }
    }
    assert(v@.skip(n as int) == Seq::<char>::empty());
    out
}

} // verus!
