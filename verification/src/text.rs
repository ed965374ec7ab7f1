//! Character-level helpers on strings: whitespace trimming, substring search
//! and splitting command output into non-blank lines.

use vstd::prelude::*;

verus! {

/// Unicode `White_Space`, the set that `char::is_whitespace` recognises.
pub open spec fn is_ws(c: char) -> bool {
    let u = c as u32;
    ||| 0x09 <= u <= 0x0D
    ||| u == 0x20
    ||| u == 0x85
    ||| u == 0xA0
    ||| u == 0x1680
    ||| 0x2000 <= u <= 0x200A
    ||| u == 0x2028
    ||| u == 0x2029
    ||| u == 0x202F
    ||| u == 0x205F
    ||| u == 0x3000
}

/// The text with its leading whitespace removed.
pub open spec fn trim_start(s: Seq<char>) -> Seq<char>
    decreases s.len(),
{
    if s.len() > 0 && is_ws(s[0]) {
        trim_start(s.drop_first())
    } else {
        s
    }
}

/// The text with its trailing whitespace removed.
pub open spec fn trim_end(s: Seq<char>) -> Seq<char>
    decreases s.len(),
{
    if s.len() > 0 && is_ws(s.last()) {
        trim_end(s.drop_last())
    } else {
        s
    }
}

/// The text with whitespace removed from both ends, as `str::trim` does.
pub open spec fn trimmed(s: Seq<char>) -> Seq<char> {
    trim_end(trim_start(s))
}

/// Whether `c` is whitespace.
pub fn is_whitespace(c: char) -> (b: bool)
    ensures
        b == is_ws(c),
{
    let u = c as u32;
    (0x09 <= u && u <= 0x0D) || u == 0x20 || u == 0x85 || u == 0xA0 || u == 0x1680
        || (0x2000 <= u && u <= 0x200A) || u == 0x2028 || u == 0x2029 || u == 0x202F
        || u == 0x205F || u == 0x3000
}

proof fn lemma_trim_start_skip(s: Seq<char>, i: int)
    requires
        0 <= i <= s.len(),
        forall|k: int| 0 <= k < i ==> is_ws(#[trigger] s[k]),
    ensures
        trim_start(s) == trim_start(s.subrange(i, s.len() as int)),
    decreases i,
{
    if i > 0 {
        assert(is_ws(s[0]));
        let t = s.drop_first();
        assert forall|k: int| 0 <= k < i - 1 implies is_ws(#[trigger] t[k]) by {
            assert(t[k] == s[k + 1]);
        }
        lemma_trim_start_skip(t, i - 1);
        assert(t.subrange(i - 1, t.len() as int) =~= s.subrange(i, s.len() as int));
    } else {
        assert(s.subrange(0, s.len() as int) =~= s);
    }
}

proof fn lemma_trim_end_cut(s: Seq<char>, j: int)
    requires
        0 <= j <= s.len(),
        forall|k: int| j <= k < s.len() ==> is_ws(#[trigger] s[k]),
    ensures
        trim_end(s) == trim_end(s.subrange(0, j)),
    decreases s.len() - j,
{
    if j < s.len() {
        assert(is_ws(s.last()));
        let t = s.drop_last();
        assert forall|k: int| j <= k < t.len() implies is_ws(#[trigger] t[k]) by {
            assert(t[k] == s[k]);
        }
        lemma_trim_end_cut(t, j);
        assert(t.subrange(0, j) =~= s.subrange(0, j));
    } else {
        assert(s.subrange(0, j) =~= s);
    }
}

/// `str::trim`: the text without leading and trailing whitespace.
pub fn trim(s: &str) -> (r: String)
    ensures
        r@ == trimmed(s@),
{
    let n = s.unicode_len();
    let mut i: usize = 0;
    while i < n && is_whitespace(s.get_char(i))
        invariant
            n == s@.len(),
            0 <= i <= n,
            forall|k: int| 0 <= k < i ==> is_ws(#[trigger] s@[k]),
        decreases n - i,
    {
        i = i + 1;
    }
    proof {
        lemma_trim_start_skip(s@, i as int);
    }
    let ghost rest = s@.subrange(i as int, n as int);
    if i == n {
        assert(rest.len() == 0);
        return String::new();
    }
    assert(!is_ws(rest[0]));
    assert(trim_start(rest) == rest);
    let mut j: usize = n;
    while j > i && is_whitespace(s.get_char(j - 1))
        invariant
            n == s@.len(),
            i < n,
            i <= j <= n,
            !is_ws(s@[i as int]),
            forall|k: int| j <= k < n ==> is_ws(#[trigger] s@[k]),
        decreases j,
    {
        j = j - 1;
    }
    proof {
        assert forall|k: int| j - i <= k < rest.len() implies is_ws(#[trigger] rest[k]) by {
            assert(rest[k] == s@[k + i]);
        }
        lemma_trim_end_cut(rest, j - i);
        let cut = rest.subrange(0, j - i);
        assert(cut.len() > 0);
        assert(cut.last() == s@[j - 1]);
        assert(trim_end(cut) == cut);
        assert(cut =~= s@.subrange(i as int, j as int));
    }
    s.substring_char(i, j).to_owned()
}


/// `needle` occurs in `hay` starting at position `i`.
pub open spec fn occurs_at(hay: Seq<char>, needle: Seq<char>, i: int) -> bool {
    0 <= i && i + needle.len() <= hay.len() && hay.subrange(i, i + needle.len()) == needle
}

/// `needle` occurs somewhere in `hay`, as `str::contains` decides.
pub open spec fn contains_text(hay: Seq<char>, needle: Seq<char>) -> bool {
    exists|i: int| occurs_at(hay, needle, i)
}

/// `str::contains` with a string pattern.
pub fn contains(hay: &str, needle: &str) -> (b: bool)
    ensures
        b == contains_text(hay@, needle@),
{
    let n = hay.unicode_len();
    let m = needle.unicode_len();
    if m > n {
        assert forall|i: int| !occurs_at(hay@, needle@, i) by {}
        return false;
    }
    let mut i: usize = 0;
    while i <= n - m
        invariant
            n == hay@.len(),
            m == needle@.len(),
            m <= n,
            0 <= i <= n - m + 1,
            forall|k: int| 0 <= k < i ==> !occurs_at(hay@, needle@, k),
        decreases n - m + 1 - i,
    {
        let mut j: usize = 0;
        while j < m && hay.get_char(i + j) == needle.get_char(j)
            invariant
                n == hay@.len(),
                m == needle@.len(),
                m <= n,
                i <= n - m,
                0 <= j <= m,
                forall|k: int| 0 <= k < j ==> hay@[i + k] == needle@[k],
            decreases m - j,
        {
            j = j + 1;
        }
        if j == m {
            assert(hay@.subrange(i as int, i + m) =~= needle@);
            assert(occurs_at(hay@, needle@, i as int));
            return true;
        }
        assert(hay@.subrange(i as int, i + m)[j as int] != needle@[j as int]);
        i = i + 1;
    }
    assert forall|k: int| !occurs_at(hay@, needle@, k) by {
        if 0 <= k && k + m <= n {
            assert(k < i);
        }
    }
    false
}

/// The pieces of `s` between `'\n'` characters, as `str::split('\n')` yields
/// them; a text without a newline is one piece.
pub open spec fn split_newlines(s: Seq<char>) -> Seq<Seq<char>>
    decreases s.len(),
{
    if s.len() == 0 {
        seq![Seq::<char>::empty()]
    } else if s.last() == '\n' {
        split_newlines(s.drop_last()).push(Seq::<char>::empty())
    } else {
        let p = split_newlines(s.drop_last());
        p.update(p.len() - 1, p.last().push(s.last()))
    }
}

/// Each line trimmed, in order, with the lines that are blank left out.
pub open spec fn keep_nonblank(lines: Seq<Seq<char>>) -> Seq<Seq<char>>
    decreases lines.len(),
{
    if lines.len() == 0 {
        Seq::<Seq<char>>::empty()
    } else {
        let rest = keep_nonblank(lines.drop_last());
        let t = trimmed(lines.last());
        if t.len() > 0 {
            rest.push(t)
        } else {
            rest
        }
    }
}

/// The trimmed, non-blank lines of `s`: what `s.lines().map(trim)` gives
/// once the empty lines are filtered out.
pub open spec fn nonblank_lines(s: Seq<char>) -> Seq<Seq<char>> {
    keep_nonblank(split_newlines(s))
}

/// The trimmed, non-blank lines of `s`, in order.
pub fn nonblank_lines_of(s: &str) -> (lines: Vec<String>)
    ensures
        lines.deep_view() == nonblank_lines(s@),
        lines.deep_view() == split_newlines(s@).map_values(|p: Seq<char>| trimmed(p)).filter(
            |t: Seq<char>| is_nonblank(t),
        ),
{
    proof {
        nonblank_lines_keep_every_nonblank_line(s@);
    }
    let n = s.unicode_len();
    let mut out: Vec<String> = Vec::new();
    let mut start: usize = 0;
    let mut i: usize = 0;
    let ghost mut done: Seq<Seq<char>> = Seq::empty();
    assert(s@.take(0) =~= Seq::<char>::empty());
    assert(s@.subrange(0, 0) =~= Seq::<char>::empty());
    while i < n
        invariant
            n == s@.len(),
            0 <= start <= i <= n,
            split_newlines(s@.take(i as int)) == done.push(s@.subrange(start as int, i as int)),
            out.deep_view() == keep_nonblank(done),
        decreases n - i,
    {
        let c = s.get_char(i);
        let ghost prev = s@.take(i as int);
        assert(s@.take(i + 1).drop_last() =~= prev);
        assert(s@.take(i + 1).last() == c);
        if c == '\n' {
            let piece = trim(s.substring_char(start, i));
            proof {
                assert(done.push(s@.subrange(start as int, i as int)).drop_last() =~= done);
            }
            if piece.unicode_len() > 0 {
                out.push(piece);
            }
            proof {
                done = done.push(s@.subrange(start as int, i as int));
                assert(out.deep_view() =~= keep_nonblank(done));
                assert(s@.subrange((i + 1) as int, (i + 1) as int) =~= Seq::<char>::empty());
            }
            start = i + 1;
        } else {
            proof {
                let p = split_newlines(prev);
                assert(s@.subrange(start as int, i + 1) =~= s@.subrange(start as int, i as int).push(c));
                assert(p.update(p.len() - 1, p.last().push(c)) =~= done.push(s@.subrange(start as int, i + 1)));
            }
        }
        i = i + 1;
    }
    let last = trim(s.substring_char(start, n));
    proof {
        assert(s@.take(n as int) =~= s@);
        assert(done.push(s@.subrange(start as int, n as int)).drop_last() =~= done);
    }
    if last.unicode_len() > 0 {
        out.push(last);
    }
    assert(out.deep_view() =~= nonblank_lines(s@));
    out
}


/// Whether two strings hold the same characters, as `==` on `str` decides.
pub fn same_text(a: &str, b: &str) -> (r: bool)
    ensures
        r == (a@ == b@),
{
    let n = a.unicode_len();
    if n != b.unicode_len() {
        return false;
    }
    let mut i: usize = 0;
    while i < n
        invariant
            n == a@.len(),
            n == b@.len(),
            0 <= i <= n,
            forall|k: int| 0 <= k < i ==> a@[k] == b@[k],
        decreases n - i,
    {
        if a.get_char(i) != b.get_char(i) {
            return false;
        }
        i = i + 1;
    }
    assert(a@ =~= b@);
    true
}


proof fn lemma_trim_start_head(s: Seq<char>)
    ensures
        trim_start(s).len() > 0 ==> !is_ws(trim_start(s)[0]),
    decreases s.len(),
{
    if s.len() > 0 && is_ws(s[0]) {
        lemma_trim_start_head(s.drop_first());
    }
}

proof fn lemma_trim_end_shape(s: Seq<char>)
    ensures
        trim_end(s).len() <= s.len(),
        trim_end(s) == s.take(trim_end(s).len() as int),
        trim_end(s).len() > 0 ==> !is_ws(trim_end(s).last()),
    decreases s.len(),
{
    if s.len() > 0 && is_ws(s.last()) {
        lemma_trim_end_shape(s.drop_last());
        let t = trim_end(s.drop_last());
        assert(s.drop_last().take(t.len() as int) =~= s.take(t.len() as int));
    } else {
        assert(s.take(s.len() as int) =~= s);
    }
}

/// A trimmed text that is not empty neither starts nor ends with whitespace.
pub proof fn lemma_trimmed_ends(s: Seq<char>)
    ensures
        trimmed(s).len() > 0 ==> !is_ws(trimmed(s)[0]) && !is_ws(trimmed(s).last()),
{
    let a = trim_start(s);
    lemma_trim_start_head(s);
    lemma_trim_end_shape(a);
    if trimmed(s).len() > 0 {
        assert(trimmed(s)[0] == a.take(trimmed(s).len() as int)[0]);
    }
}

proof fn lemma_keep_nonblank_items(lines: Seq<Seq<char>>)
    ensures
        forall|i: int| 0 <= i < keep_nonblank(lines).len() ==> {
            let l = #[trigger] keep_nonblank(lines)[i];
            &&& l.len() > 0
            &&& !is_ws(l[0])
            &&& !is_ws(l.last())
        },
    decreases lines.len(),
{
    if lines.len() > 0 {
        let rest = keep_nonblank(lines.drop_last());
        let t = trimmed(lines.last());
        lemma_keep_nonblank_items(lines.drop_last());
        lemma_trimmed_ends(lines.last());
        if t.len() > 0 {
            assert forall|i: int| 0 <= i < rest.len() + 1 implies {
                let l = #[trigger] rest.push(t)[i];
                &&& l.len() > 0
                &&& !is_ws(l[0])
                &&& !is_ws(l.last())
            } by {
                if i < rest.len() {
                    assert(rest.push(t)[i] == rest[i]);
                }
            }
        }
    }
}

/// Every line that `nonblank_lines` keeps is non-empty and starts and ends
/// with a character other than whitespace: a workspace name read from the
/// CLI is never blank and carries no stray spaces or line endings.
pub proof fn nonblank_lines_are_trimmed(s: Seq<char>)
    ensures
        forall|i: int| 0 <= i < nonblank_lines(s).len() ==> {
            let l = #[trigger] nonblank_lines(s)[i];
            &&& l.len() > 0
            &&& !is_ws(l[0])
            &&& !is_ws(l.last())
        },
{
    lemma_keep_nonblank_items(split_newlines(s));
}


/// A line is kept when its trimmed text is not empty.
pub open spec fn is_nonblank(t: Seq<char>) -> bool {
    t.len() > 0
}

proof fn lemma_keep_nonblank_is_filter(lines: Seq<Seq<char>>)
    ensures
        keep_nonblank(lines) == lines.map_values(|p: Seq<char>| trimmed(p)).filter(
            |t: Seq<char>| is_nonblank(t),
        ),
    decreases lines.len(),
{
    reveal(Seq::filter);
    if lines.len() > 0 {
        lemma_keep_nonblank_is_filter(lines.drop_last());
        let m = lines.map_values(|p: Seq<char>| trimmed(p));
        assert(m.drop_last() =~= lines.drop_last().map_values(|p: Seq<char>| trimmed(p)));
        assert(m.last() == trimmed(lines.last()));
        assert(m.filter(|t: Seq<char>| is_nonblank(t)) == (if is_nonblank(m.last()) {
            m.drop_last().filter(|t: Seq<char>| is_nonblank(t)).push(m.last())
        } else {
            m.drop_last().filter(|t: Seq<char>| is_nonblank(t))
        }));
    } else {
        assert(lines.map_values(|p: Seq<char>| trimmed(p)) =~= Seq::<Seq<char>>::empty());
    }
}

/// The pieces of `s` joined back with `'\n'` between them.
pub open spec fn join_lines(pieces: Seq<Seq<char>>) -> Seq<char>
    decreases pieces.len(),
{
    if pieces.len() <= 1 {
        if pieces.len() == 0 {
            Seq::<char>::empty()
        } else {
            pieces[0]
        }
    } else {
        join_lines(pieces.drop_last()) + seq!['\n'] + pieces.last()
    }
}

proof fn lemma_join_extend_last(q: Seq<Seq<char>>, c: char)
    requires
        q.len() > 0,
    ensures
        join_lines(q.update(q.len() - 1, q.last().push(c))) == join_lines(q).push(c),
{
    let u = q.update(q.len() - 1, q.last().push(c));
    if q.len() == 1 {
        assert(u[0] == q[0].push(c));
    } else {
        assert(u.drop_last() =~= q.drop_last());
        assert(u.last() == q.last().push(c));
        assert(join_lines(u) =~= join_lines(q).push(c));
    }
}

/// Splitting at `'\n'` loses nothing and invents nothing: the pieces hold
/// no newline, there is one more piece than there are newlines' worth of
/// breaks, and joining them back with `'\n'` gives the text again.
pub proof fn split_newlines_rejoins(s: Seq<char>)
    ensures
        split_newlines(s).len() > 0,
        join_lines(split_newlines(s)) == s,
        forall|i: int, k: int|
            0 <= i < split_newlines(s).len() && 0 <= k < split_newlines(s)[i].len()
                ==> #[trigger] split_newlines(s)[i][k] != '\n',
    decreases s.len(),
{
    if s.len() > 0 {
        let t = s.drop_last();
        split_newlines_rejoins(t);
        let p = split_newlines(t);
        if s.last() == '\n' {
            let q = p.push(Seq::<char>::empty());
            assert(q.drop_last() =~= p);
            assert(join_lines(q) =~= t + seq!['\n'] + Seq::<char>::empty());
            assert(s =~= t + seq!['\n']);
            assert forall|i: int, k: int| 0 <= i < q.len() && 0 <= k < q[i].len() implies #[trigger] q[i][k] != '\n' by {
                assert(i < p.len());
                assert(q[i] == p[i]);
            }
        } else {
            lemma_join_extend_last(p, s.last());
            assert(s =~= t.push(s.last()));
            let q = p.update(p.len() - 1, p.last().push(s.last()));
            assert forall|i: int, k: int| 0 <= i < q.len() && 0 <= k < q[i].len() implies #[trigger] q[i][k] != '\n' by {
                if i < p.len() - 1 {
                    assert(q[i] == p[i]);
                } else {
                    assert(q[i] == p.last().push(s.last()));
                    if k < p.last().len() {
                        assert(q[i][k] == p[i][k]);
                    }
                }
            }
        }
    }
}

/// Every non-blank line of the text is kept, trimmed, in order, and only
/// those: the kept lines are exactly the trimmed pieces between newlines
/// with the blank ones filtered out.
pub proof fn nonblank_lines_keep_every_nonblank_line(s: Seq<char>)
    ensures
        nonblank_lines(s) == split_newlines(s).map_values(|p: Seq<char>| trimmed(p)).filter(
            |t: Seq<char>| is_nonblank(t),
        ),
{
    lemma_keep_nonblank_is_filter(split_newlines(s));
}


proof fn lemma_trim_start_suffix(s: Seq<char>)
    ensures
        trim_start(s).len() <= s.len(),
        trim_start(s) == s.skip(s.len() - trim_start(s).len()),
    decreases s.len(),
{
    if s.len() > 0 && is_ws(s[0]) {
        lemma_trim_start_suffix(s.drop_first());
        let t = trim_start(s.drop_first());
        assert(s.drop_first().skip(s.len() - 1 - t.len()) =~= s.skip(s.len() - t.len()));
    } else {
        assert(s.skip(0) =~= s);
    }
}

/// Whatever the trimmed text holds, the text itself holds.
pub proof fn lemma_trimmed_occurrence(s: Seq<char>, needle: Seq<char>)
    ensures
        contains_text(trimmed(s), needle) ==> contains_text(s, needle),
{
    lemma_trim_start_suffix(s);
    let a = trim_start(s);
    lemma_trim_end_shape(a);
    let k = s.len() - a.len();
    let t = trimmed(s);
    if contains_text(t, needle) {
        let i = choose|i: int| occurs_at(t, needle, i);
        assert(t =~= s.subrange(k, k + t.len()));
        assert(s.subrange(k + i, k + i + needle.len()) =~= t.subrange(i, i + needle.len()));
        assert(occurs_at(s, needle, k + i));
    }
}


proof fn lemma_trim_start_empty(s: Seq<char>)
    ensures
        trim_start(s).len() == 0 <==> forall|k: int| 0 <= k < s.len() ==> is_ws(#[trigger] s[k]),
    decreases s.len(),
{
    if s.len() > 0 {
        if is_ws(s[0]) {
            lemma_trim_start_empty(s.drop_first());
            assert forall|k: int| 1 <= k < s.len() implies #[trigger] s[k] == s.drop_first()[k - 1] by {}
            if forall|k: int| 0 <= k < s.drop_first().len() ==> is_ws(#[trigger] s.drop_first()[k]) {
                assert forall|k: int| 0 <= k < s.len() implies is_ws(#[trigger] s[k]) by {
                    if k > 0 {
                        assert(is_ws(s.drop_first()[k - 1]));
                    }
                }
            }
            if forall|k: int| 0 <= k < s.len() ==> is_ws(#[trigger] s[k]) {
                assert forall|k: int| 0 <= k < s.drop_first().len() implies is_ws(#[trigger] s.drop_first()[k]) by {
                    assert(is_ws(s[k + 1]));
                }
            }
        }
    }
}

/// A text trims to nothing exactly when every character of it is
/// whitespace.
pub proof fn trimmed_empty_iff_all_whitespace(s: Seq<char>)
    ensures
        trimmed(s).len() == 0 <==> forall|k: int| 0 <= k < s.len() ==> is_ws(#[trigger] s[k]),
{
    lemma_trim_start_empty(s);
    lemma_trim_start_head(s);
    let a = trim_start(s);
    lemma_trim_end_shape(a);
    if a.len() > 0 {
        lemma_trim_end_nonempty(a);
    }
}

proof fn lemma_trim_end_nonempty(s: Seq<char>)
    requires
        s.len() > 0,
        !is_ws(s[0]),
    ensures
        trim_end(s).len() > 0,
    decreases s.len(),
{
    if is_ws(s.last()) {
        assert(s.len() > 1);
        assert(s.drop_last()[0] == s[0]);
        lemma_trim_end_nonempty(s.drop_last());
    }
}

} // verus!
