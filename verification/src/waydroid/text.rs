//! Line-oriented text edits of configuration files, on the characters of
//! their contents.

use vstd::prelude::*;

verus! {

/// `String::push` appends one character.
pub assume_specification[ String::push ](string: &mut String, ch: char)
    ensures
        final(string)@ == old(string)@.push(ch),
;

/// The characters of `s`.
pub fn chars_of(s: &str) -> (v: Vec<char>)
    ensures
        v@ == s@,
{
    let mut v: Vec<char> = Vec::new();
    for c in it: s.chars()
        invariant
            v@ == it.seq().take(it.index() as int),
    {
        v.push(c);
    }
    assert(v@ =~= s@);
    v
}

/// A string holding the characters of `v`.
pub fn string_of(v: &[char]) -> (s: String)
    ensures
        s@ == v@,
{
    let mut s = String::new();
    let n = v.len();
    let mut i: usize = 0;
    while i < n
        invariant
            i <= n,
            n == v@.len(),
            s@ == v@.subrange(0, i as int),
        decreases n - i,
    {
        s.push(v[i]);
        proof {
            assert(v@.subrange(0, i + 1) =~= v@.subrange(0, i as int).push(v@[i as int]));
        }
        i = i + 1;
    }
    proof {
        assert(v@.subrange(0, n as int) =~= v@);
    }
    s
}

/// Whether `c` is white space: the Unicode `White_Space` characters, as
/// `char::is_whitespace` and `str::trim` take them.
pub open spec fn is_space(c: char) -> bool {
    let u = c as u32;
    (9 <= u && u <= 13) || u == 32 || u == 0x85 || u == 0xa0 || u == 0x1680 || (0x2000 <= u && u <= 0x200a)
        || u == 0x2028 || u == 0x2029 || u == 0x202f || u == 0x205f || u == 0x3000
}

fn space(c: char) -> (b: bool)
    ensures
        b == is_space(c),
{
    let u = c as u32;
    (9 <= u && u <= 13) || u == 32 || u == 0x85 || u == 0xa0 || u == 0x1680 || (0x2000 <= u && u <= 0x200a)
        || u == 0x2028 || u == 0x2029 || u == 0x202f || u == 0x205f || u == 0x3000
}

/// `s` without its leading white space.
pub open spec fn trim_start(s: Seq<char>) -> Seq<char>
    decreases s.len(),
{
    if s.len() > 0 && is_space(s[0]) {
        trim_start(s.drop_first())
    } else {
        s
    }
}

/// `s` without its trailing white space.
pub open spec fn trim_end(s: Seq<char>) -> Seq<char>
    decreases s.len(),
{
    if s.len() > 0 && is_space(s.last()) {
        trim_end(s.drop_last())
    } else {
        s
    }
}

/// `s` without leading and trailing white space.
pub open spec fn trim(s: Seq<char>) -> Seq<char> {
    trim_end(trim_start(s))
}

/// The pieces of `s` between line feeds: one more than there are line
/// feeds, the last being what follows the last line feed.
pub open spec fn segments(s: Seq<char>) -> Seq<Seq<char>>
    decreases s.len(),
{
    if s.len() == 0 {
        seq![Seq::<char>::empty()]
    } else {
        let prev = segments(s.drop_last());
        if s.last() == '\n' {
            prev.push(Seq::<char>::empty())
        } else {
            prev.update(prev.len() - 1, prev.last().push(s.last()))
        }
    }
}

/// A line that ended in a line feed, without the carriage return before it.
pub open spec fn strip_cr(l: Seq<char>) -> Seq<char> {
    if l.len() > 0 && l.last() == '\r' {
        l.drop_last()
    } else {
        l
    }
}

/// The lines of `s` as `str::lines` yields them: split at line feeds, a
/// carriage return before a line feed dropped, no line after a final line feed.
pub open spec fn lines(s: Seq<char>) -> Seq<Seq<char>> {
    let segs = segments(s);
    segs.drop_last().map_values(|l: Seq<char>| strip_cr(l)) + if segs.last().len() == 0 {
        Seq::<Seq<char>>::empty()
    } else {
        seq![segs.last()]
    }
}

/// There is always a last segment.
pub proof fn lemma_segments_len(s: Seq<char>)
    ensures
        segments(s).len() >= 1,
    decreases s.len(),
{
    if s.len() > 0 {
        lemma_segments_len(s.drop_last());
    }
}

/// A copy of `v[a..b]`.
pub fn sub_vec(v: &Vec<char>, a: usize, b: usize) -> (r: Vec<char>)
    requires
        a <= b <= v@.len(),
    ensures
        r@ == v@.subrange(a as int, b as int),
{
    let mut r: Vec<char> = Vec::new();
    let mut i: usize = a;
    while i < b
        invariant
            a <= i <= b <= v@.len(),
            r@ == v@.subrange(a as int, i as int),
        decreases b - i,
    {
        r.push(v[i]);
        proof {
            assert(v@.subrange(a as int, i + 1) =~= v@.subrange(a as int, i as int).push(v@[i as int]));
        }
        i = i + 1;
    }
    r
}

/// Whether `v[a..b]` is `w`.
pub fn slice_eq(v: &Vec<char>, a: usize, b: usize, w: &Vec<char>) -> (eq: bool)
    requires
        a <= b <= v@.len(),
    ensures
        eq == (v@.subrange(a as int, b as int) == w@),
{
    if b - a != w.len() {
        proof {
            assert(v@.subrange(a as int, b as int).len() != w@.len());
        }
        return false;
    }
    let mut k: usize = 0;
    while k < w.len()
        invariant
            a <= b <= v@.len(),
            b - a == w@.len(),
            k <= w@.len(),
            forall|j: int| 0 <= j < k ==> v@[a + j] == w@[j],
        decreases w@.len() - k,
    {
        if v[a + k] != w[k] {
            proof {
                assert(v@.subrange(a as int, b as int)[k as int] != w@[k as int]);
            }
            return false;
        }
        k = k + 1;
    }
    assert(v@.subrange(a as int, b as int) =~= w@);
    true
}

/// The bounds of `v[start..end]` without its leading and trailing white space.
pub fn trim_bounds(v: &Vec<char>, start: usize, end: usize) -> (r: (usize, usize))
    requires
        start <= end <= v@.len(),
    ensures
        start <= r.0 <= r.1 <= end,
        v@.subrange(r.0 as int, r.1 as int) == trim(v@.subrange(start as int, end as int)),
{
    let mut a: usize = start;
    while a < end && space(v[a])
        invariant
            start <= a <= end <= v@.len(),
            trim_start(v@.subrange(start as int, end as int)) == trim_start(v@.subrange(a as int, end as int)),
        decreases end - a,
    {
        proof {
            assert(v@.subrange(a as int, end as int).drop_first() =~= v@.subrange(a + 1, end as int));
        }
        a = a + 1;
    }
    let mut b: usize = end;
    while b > a && space(v[b - 1])
        invariant
            start <= a <= b <= end <= v@.len(),
            trim_end(v@.subrange(a as int, end as int)) == trim_end(v@.subrange(a as int, b as int)),
            a < end ==> !is_space(v@[a as int]),
        decreases b - a,
    {
        proof {
            assert(v@.subrange(a as int, b as int).drop_last() =~= v@.subrange(a as int, b - 1));
        }
        b = b - 1;
    }
    (a, b)
}

/// The bounds of the lines of `v`, as [`lines`] gives them.
pub fn line_bounds(v: &Vec<char>) -> (r: Vec<(usize, usize)>)
    ensures
        r@.len() == lines(v@).len(),
        forall|k: int| #![trigger r@[k]] 0 <= k < r@.len() ==> r@[k].0 <= r@[k].1 && r@[k].1 <= v@.len(),
        forall|k: int|
            0 <= k < r@.len() ==> v@.subrange(r@[k].0 as int, r@[k].1 as int) == #[trigger] lines(v@)[k],
{
    let n = v.len();
    let mut r: Vec<(usize, usize)> = Vec::new();
    let ghost mut done: Seq<Seq<char>> = Seq::empty();
    let mut start: usize = 0;
    let mut i: usize = 0;
    proof {
        assert(v@.subrange(0, 0) =~= Seq::<char>::empty());
        assert(segments(v@.subrange(0, 0)) =~= done.push(v@.subrange(0, 0)));
    }
    while i < n
        invariant
            i <= n,
            n == v@.len(),
            start <= i,
            segments(v@.subrange(0, i as int)) == done.push(v@.subrange(start as int, i as int)),
            r@.len() == done.len(),
            forall|k: int| #![trigger r@[k]] 0 <= k < done.len() ==> r@[k].0 <= r@[k].1 && r@[k].1 <= v@.len(),
            forall|k: int|
                0 <= k < done.len() ==> v@.subrange(r@[k].0 as int, r@[k].1 as int) == strip_cr(#[trigger] done[k]),
        decreases n - i,
    {
        proof {
            assert(v@.subrange(0, i + 1).drop_last() =~= v@.subrange(0, i as int));
            assert(v@.subrange(0, i + 1).last() == v@[i as int]);
        }
        if v[i] == '\n' {
            let end = if i > start && v[i - 1] == '\r' {
                i - 1
            } else {
                i
            };
            proof {
                let cur = v@.subrange(start as int, i as int);
                if i > start {
                    assert(cur.last() == v@[i - 1]);
                }
                if i > start && v@[i - 1] == '\r' {
                    assert(cur.drop_last() =~= v@.subrange(start as int, end as int));
                } else {
                    assert(cur =~= v@.subrange(start as int, end as int));
                }
                assert(strip_cr(cur) == v@.subrange(start as int, end as int));
            }
            let ghost old_r = r@;
            let ghost old_done = done;
            r.push((start, end));
            proof {
                done = done.push(v@.subrange(start as int, i as int));
                assert(v@.subrange(i + 1, i + 1) =~= Seq::<char>::empty());
                assert forall|k: int| 0 <= k < done.len() implies v@.subrange(
                    r@[k].0 as int,
                    r@[k].1 as int,
                ) == strip_cr(#[trigger] done[k]) by {
                    if k < old_done.len() {
                        assert(r@[k] == old_r[k]);
                        assert(done[k] == old_done[k]);
                    }
                }
                assert forall|k: int| #![trigger r@[k]] 0 <= k < done.len() implies r@[k].0 <= r@[k].1 && r@[k].1 <= v@.len() by {
                    if k < old_done.len() {
                        assert(r@[k] == old_r[k]);
                    }
                }
            }
            start = i + 1;
        } else {
            proof {
                assert(v@.subrange(start as int, i + 1) =~= v@.subrange(start as int, i as int).push(v@[i as int]));
            }
        }
        i = i + 1;
    }
    proof {
        assert(v@.subrange(0, n as int) =~= v@);
    }
    let ghost tail = v@.subrange(start as int, n as int);
    if start < n {
        r.push((start, n));
    }
    proof {
        let segs = segments(v@);
        assert(segs.drop_last() =~= done);
        assert(segs.last() == tail);
        let ls = lines(v@);
        assert(ls.len() == r@.len());
        assert forall|k: int| #![trigger r@[k]] 0 <= k < r@.len() implies r@[k].0 <= r@[k].1 && r@[k].1 <= v@.len() by {
            if k < done.len() {
                assert(r@[k].0 <= r@[k].1 && r@[k].1 <= v@.len());
            }
        }
        assert forall|k: int| 0 <= k < r@.len() implies v@.subrange(
            r@[k].0 as int,
            r@[k].1 as int,
        ) == #[trigger] lines(v@)[k] by {
            let mapped = segs.drop_last().map_values(|l: Seq<char>| strip_cr(l));
            if k < done.len() {
                assert(mapped[k] == strip_cr(done[k]));
                assert(ls[k] == mapped[k]);
            } else {
                assert(ls[k] == tail);
            }
        }
    }
    r
}

/// Whether some line of `content`, trimmed, is `target`.
pub open spec fn has_trimmed_line(content: Seq<char>, target: Seq<char>) -> bool {
    exists|k: int| 0 <= k < lines(content).len() && trim(#[trigger] lines(content)[k]) == target
}

/// `content` with `line` added as a line of its own: a line feed first
/// when the content does not end in one, and a line feed after it.
pub open spec fn with_line(content: Seq<char>, line: Seq<char>) -> Seq<char> {
    (if content.len() > 0 && content.last() != '\n' {
        content.push('\n')
    } else {
        content
    }) + line.push('\n')
}

/// Whether some line of `v`, trimmed, is `target`.
pub fn find_trimmed_line(v: &Vec<char>, target: &Vec<char>) -> (b: bool)
    ensures
        b == has_trimmed_line(v@, target@),
{
    let bounds = line_bounds(v);
    let mut k: usize = 0;
    while k < bounds.len()
        invariant
            k <= bounds@.len(),
            bounds@.len() == lines(v@).len(),
            forall|j: int| #![trigger bounds@[j]] 0 <= j < bounds@.len() ==> bounds@[j].0 <= bounds@[j].1 && bounds@[j].1 <= v@.len(),
            forall|j: int|
                0 <= j < bounds@.len() ==> v@.subrange(bounds@[j].0 as int, bounds@[j].1 as int) == #[trigger] lines(v@)[j],
            forall|j: int| 0 <= j < k ==> trim(#[trigger] lines(v@)[j]) != target@,
        decreases bounds@.len() - k,
    {
        let (start, end) = bounds[k];
        assert(v@.subrange(start as int, end as int) == lines(v@)[k as int]);
        let (a, b) = trim_bounds(v, start, end);
        if slice_eq(v, a, b, target) {
            return true;
        }
        k = k + 1;
    }
    false
}

/// Adds `line` to `content` unless a line of it, trimmed, is already the
/// trimmed `line`: the new content, or `None` when nothing is to change.
pub fn ensure_line_content(content: &str, line: &str) -> (r: Option<String>)
    ensures
        has_trimmed_line(content@, trim(line@)) ==> r is None,
        !has_trimmed_line(content@, trim(line@)) ==> (r matches Some(s) && s@ == with_line(content@, line@)),
{
    let v = chars_of(content);
    let l = chars_of(line);
    let (a, b) = trim_bounds(&l, 0, l.len());
    let target = sub_vec(&l, a, b);
    proof {
        assert(l@.subrange(0, l@.len() as int) =~= l@);
    }
    if find_trimmed_line(&v, &target) {
        return None;
    }
    let mut out: Vec<char> = v.clone();
    let n = v.len();
    if n > 0 && v[n - 1] != '\n' {
        out.push('\n');
    }
    let mut i: usize = 0;
    let ghost before = out@;
    while i < l.len()
        invariant
            i <= l@.len(),
            out@ == before + l@.subrange(0, i as int),
        decreases l@.len() - i,
    {
        out.push(l[i]);
        proof {
            assert(l@.subrange(0, i + 1) =~= l@.subrange(0, i as int).push(l@[i as int]));
        }
        i = i + 1;
    }
    out.push('\n');
    proof {
        assert(l@.subrange(0, l@.len() as int) =~= l@);
        assert(out@ =~= with_line(content@, line@));
    }
    Some(string_of(out.as_slice()))
}

/// A last character of white space does not change the trimmed text.
pub proof fn lemma_trim_drop_space(s: Seq<char>)
    requires
        s.len() > 0,
        is_space(s.last()),
    ensures
        trim(s.drop_last()) == trim(s),
    decreases s.len(),
{
    if s.len() == 1 {
        assert(s.drop_first() =~= Seq::<char>::empty());
        assert(s.drop_last() =~= Seq::<char>::empty());
    } else if is_space(s[0]) {
        let t = s.drop_first();
        lemma_trim_drop_space(t);
        assert(s.drop_last().drop_first() =~= t.drop_last());
        assert(s.drop_last()[0] == s[0]);
    } else {
        assert(s.drop_last()[0] == s[0]);
        assert(trim_start(s) == s);
        assert(trim_start(s.drop_last()) == s.drop_last());
    }
}

/// The segments of text that ends in a line feed end with an empty one.
proof fn lemma_segments_after_feed(a: Seq<char>)
    requires
        a.len() == 0 || a.last() == '\n',
    ensures
        segments(a).last() == Seq::<char>::empty(),
{
    if a.len() > 0 {
        lemma_segments_len(a.drop_last());
    }
}

/// Text without line feeds extends the last segment.
proof fn lemma_segments_extend(a: Seq<char>, x: Seq<char>)
    requires
        forall|i: int| 0 <= i < x.len() ==> x[i] != '\n',
    ensures
        segments(a + x) == segments(a).update(segments(a).len() - 1, segments(a).last() + x),
    decreases x.len(),
{
    lemma_segments_len(a);
    if x.len() == 0 {
        assert(a + x =~= a);
        assert(segments(a).last() + x =~= segments(a).last());
        assert(segments(a).update(segments(a).len() - 1, segments(a).last()) =~= segments(a));
    } else {
        let y = x.drop_last();
        lemma_segments_extend(a, y);
        assert((a + x).drop_last() =~= a + y);
        assert((a + x).last() == x.last());
        lemma_segments_len(a + y);
        assert(x[x.len() - 1] != '\n');
        let big = segments(a);
        let prev = segments(a + y);
        assert(prev.len() == big.len());
        assert(prev.last() == big.last() + y);
        assert((big.last() + y).push(x.last()) =~= big.last() + x);
        assert(segments(a + x) == prev.update(prev.len() - 1, prev.last().push((a + x).last())));
        assert(segments(a + x) =~= big.update(big.len() - 1, big.last() + x));
    }
}

/// A line added to content is one of its lines afterwards, when it holds
/// no line feed: adding it a second time changes nothing.
pub proof fn lemma_with_line_has_line(content: Seq<char>, line: Seq<char>)
    requires
        forall|i: int| 0 <= i < line.len() ==> line[i] != '\n',
    ensures
        has_trimmed_line(with_line(content, line), trim(line)),
{
    let a = if content.len() > 0 && content.last() != '\n' {
        content.push('\n')
    } else {
        content
    };
    lemma_segments_after_feed(a);
    lemma_segments_len(a);
    lemma_segments_extend(a, line);
    let s = with_line(content, line);
    assert(s =~= (a + line).push('\n'));
    assert(s.drop_last() =~= a + line);
    let segs = segments(s);
    let m = segments(a).len() - 1;
    assert(segs.drop_last()[m] == line);
    assert(segs.last() == Seq::<char>::empty());
    assert(lines(s)[m] == strip_cr(line));
    if line.len() > 0 && line.last() == '\r' {
        lemma_trim_drop_space(line);
    }
    assert(trim(lines(s)[m]) == trim(line));
}

/// Whether `pat` occurs in `s`.
pub open spec fn contains_text(s: Seq<char>, pat: Seq<char>) -> bool {
    exists|i: int| 0 <= i && i + pat.len() <= s.len() && #[trigger] s.subrange(i, i + pat.len()) == pat
}

/// Whether `pat` occurs in `v`.
pub fn contains_chars(v: &Vec<char>, pat: &Vec<char>) -> (b: bool)
    ensures
        b == contains_text(v@, pat@),
{
    let n = v.len();
    let m = pat.len();
    if m > n {
        return false;
    }
    if m == 0 {
        assert(v@.subrange(0, 0 + pat@.len() as int) =~= pat@);
        return true;
    }
    let mut i: usize = 0;
    while i <= n - m
        invariant
            0 < m <= n,
            n == v@.len(),
            m == pat@.len(),
            i <= n - m + 1,
            forall|j: int| 0 <= j < i ==> #[trigger] v@.subrange(j, j + m) != pat@,
        decreases n - m + 1 - i,
    {
        if slice_eq(v, i, i + m, pat) {
            return true;
        }
        i = i + 1;
    }
    false
}

/// Appends `w` to `out`.
pub fn push_chars(out: &mut Vec<char>, w: &Vec<char>)
    ensures
        final(out)@ == old(out)@ + w@,
{
    let mut i: usize = 0;
    while i < w.len()
        invariant
            i <= w@.len(),
            out@ == old(out)@ + w@.subrange(0, i as int),
        decreases w@.len() - i,
    {
        out.push(w[i]);
        proof {
            assert(w@.subrange(0, i + 1) =~= w@.subrange(0, i as int).push(w@[i as int]));
        }
        i = i + 1;
    }
    assert(w@.subrange(0, w@.len() as int) =~= w@);
}

/// `content` with an `on init` section opened at its end when it mentions none.
pub open spec fn with_on_init(content: Seq<char>) -> Seq<char> {
    if contains_text(content, "on init"@) {
        content
    } else {
        content + "\non init\n"@
    }
}

/// `content` with each line of `env` that is not yet a trimmed line of it
/// appended, indented by four spaces.
pub open spec fn with_env_lines(content: Seq<char>, env: Seq<Seq<char>>) -> Seq<char>
    decreases env.len(),
{
    if env.len() == 0 {
        content
    } else {
        let prev = with_env_lines(content, env.drop_last());
        if has_trimmed_line(prev, env.last()) {
            prev
        } else {
            prev + "    "@ + env.last().push('\n')
        }
    }
}

/// The init script with the guest environment in its `on init` section.
pub open spec fn patched_init_environ(content: Seq<char>, env: Seq<Seq<char>>) -> Seq<char> {
    with_env_lines(with_on_init(content), env)
}

/// Opens an `on init` section if the script mentions none, then adds each
/// environment line not yet present (trimmed lines compared); also says
/// whether anything changed.
pub fn patch_init_environ_content(content: &str, env: &[String]) -> (r: (String, bool))
    ensures
        r.0@ == patched_init_environ(content@, env@.map_values(|e: String| e@)),
        r.1 == (r.0@ != content@),
{
    let ghost envs = env@.map_values(|e: String| e@);
    let mut cur = chars_of(content);
    let marker = chars_of("on init");
    let mut changed = false;
    if !contains_chars(&cur, &marker) {
        let section = chars_of("\non init\n");
        proof {
            reveal_strlit("\non init\n");
        }
        push_chars(&mut cur, &section);
        changed = true;
    }
    let indent = chars_of("    ");
    let mut k: usize = 0;
    while k < env.len()
        invariant
            k <= env@.len(),
            envs == env@.map_values(|e: String| e@),
            indent@ == "    "@,
            cur@ == with_env_lines(with_on_init(content@), envs.subrange(0, k as int)),
            cur@.len() >= content@.len(),
            changed == (cur@ != content@),
        decreases env@.len() - k,
    {
        proof {
            assert(envs.subrange(0, k + 1).drop_last() =~= envs.subrange(0, k as int));
            assert(envs.subrange(0, k + 1).last() == env@[k as int]@);
        }
        let line = chars_of(env[k].as_str());
        if !find_trimmed_line(&cur, &line) {
            push_chars(&mut cur, &indent);
            push_chars(&mut cur, &line);
            cur.push('\n');
            proof {
                assert(cur@ =~= with_env_lines(with_on_init(content@), envs.subrange(0, k as int)) + "    "@
                    + line@.push('\n'));
            }
            changed = true;
        }
        k = k + 1;
    }
    proof {
        assert(envs.subrange(0, env@.len() as int) =~= envs);
    }
    (string_of(cur.as_slice()), changed)
}

/// The key a property line sets: what precedes its first `=`.
pub open spec fn prop_key(prop: Seq<char>) -> Seq<char>
    decreases prop.len(),
{
    if prop.len() == 0 || prop[0] == '=' {
        Seq::<char>::empty()
    } else {
        seq![prop[0]] + prop_key(prop.drop_first())
    }
}

/// Whether `l` begins with `p`.
pub open spec fn starts_with(l: Seq<char>, p: Seq<char>) -> bool {
    p.len() <= l.len() && l.subrange(0, p.len() as int) == p
}

/// The lines with the first one that begins with `pat` replaced by `prop`
/// and the later ones that do dropped, and whether there was one.
pub open spec fn replace_prop(ls: Seq<Seq<char>>, pat: Seq<char>, prop: Seq<char>) -> (Seq<Seq<char>>, bool)
    decreases ls.len(),
{
    if ls.len() == 0 {
        (Seq::<Seq<char>>::empty(), false)
    } else {
        let (kept, found) = replace_prop(ls.drop_last(), pat, prop);
        if starts_with(ls.last(), pat) {
            if found {
                (kept, true)
            } else {
                (kept.push(prop), true)
            }
        } else {
            (kept.push(ls.last()), found)
        }
    }
}

/// The lines joined with line feeds between them.
pub open spec fn join_lines(ls: Seq<Seq<char>>) -> Seq<char>
    decreases ls.len(),
{
    if ls.len() == 0 {
        Seq::<char>::empty()
    } else if ls.len() == 1 {
        ls[0]
    } else {
        join_lines(ls.drop_last()) + seq!['\n'] + ls.last()
    }
}

/// `content` with property line `prop` set: the first line setting its
/// key replaced, later ones dropped, or the line appended when none sets
/// it; the lines rejoined, ending in a line feed.
pub open spec fn with_prop(content: Seq<char>, prop: Seq<char>) -> Seq<char> {
    let pat = prop_key(prop).push('=');
    let (kept, found) = replace_prop(lines(content), pat, prop);
    let joined = join_lines(
        if found {
            kept
        } else {
            kept.push(prop)
        },
    );
    if joined.len() > 0 && joined.last() == '\n' {
        joined
    } else {
        joined.push('\n')
    }
}

/// `content` with each property line of `props` set in turn.
pub open spec fn with_props(content: Seq<char>, props: Seq<Seq<char>>) -> Seq<char>
    decreases props.len(),
{
    if props.len() == 0 {
        content
    } else {
        with_prop(with_props(content, props.drop_last()), props.last())
    }
}

/// The key of `prop` followed by `=`.
fn key_pattern(prop: &Vec<char>) -> (pat: Vec<char>)
    ensures
        pat@ == prop_key(prop@).push('='),
{
    let n = prop.len();
    let mut i: usize = 0;
    proof {
        assert(prop@.subrange(0, n as int) =~= prop@);
        assert(prop@.subrange(0, 0) + prop@ =~= prop@);
    }
    while i < n && prop[i] != '='
        invariant
            i <= n,
            n == prop@.len(),
            prop_key(prop@) == prop@.subrange(0, i as int) + prop_key(prop@.subrange(i as int, n as int)),
        decreases n - i,
    {
        proof {
            let rest = prop@.subrange(i as int, n as int);
            assert(rest.drop_first() =~= prop@.subrange(i + 1, n as int));
            assert(prop@.subrange(0, i + 1) =~= prop@.subrange(0, i as int) + seq![prop@[i as int]]);
        }
        i = i + 1;
    }
    let mut pat = sub_vec(prop, 0, i);
    pat.push('=');
    proof {
        assert(prop_key(prop@.subrange(i as int, n as int)) =~= Seq::<char>::empty());
        assert(prop@.subrange(0, i as int) + Seq::<char>::empty() =~= prop@.subrange(0, i as int));
    }
    pat
}

/// Whether `v[a..b]` begins with `p`.
fn slice_starts_with(v: &Vec<char>, a: usize, b: usize, p: &Vec<char>) -> (r: bool)
    requires
        a <= b <= v@.len(),
    ensures
        r == starts_with(v@.subrange(a as int, b as int), p@),
{
    if p.len() > b - a {
        return false;
    }
    let e = a + p.len();
    let r = slice_eq(v, a, e, p);
    assert(v@.subrange(a as int, b as int).subrange(0, p@.len() as int) =~= v@.subrange(a as int, e as int));
    r
}

/// Appends `w` as one more line of `out`, which holds `count` lines joined.
fn push_line(out: &mut Vec<char>, count: usize, w: &Vec<char>, Ghost(pushed): Ghost<Seq<Seq<char>>>)
    requires
        old(out)@ == join_lines(pushed),
        count == pushed.len(),
    ensures
        final(out)@ == join_lines(pushed.push(w@)),
{
    if count > 0 {
        out.push('\n');
    }
    push_chars(out, w);
    proof {
        assert(pushed.push(w@).drop_last() =~= pushed);
        if count == 0 {
            assert(old(out)@ =~= Seq::<char>::empty());
            assert(final(out)@ =~= w@);
        }
    }
}

/// Sets property line `prop` in the text `v`; see [`with_prop`].
fn set_prop(v: &Vec<char>, prop: &Vec<char>) -> (r: Vec<char>)
    ensures
        r@ == with_prop(v@, prop@),
{
    let pat = key_pattern(prop);
    let bounds = line_bounds(v);
    let ghost ls = lines(v@);
    let mut out: Vec<char> = Vec::new();
    let mut count: usize = 0;
    let mut found = false;
    let ghost mut pushed: Seq<Seq<char>> = Seq::empty();
    let mut k: usize = 0;
    while k < bounds.len()
        invariant
            k <= bounds@.len(),
            ls == lines(v@),
            bounds@.len() == ls.len(),
            pat@ == prop_key(prop@).push('='),
            forall|j: int| #![trigger bounds@[j]] 0 <= j < bounds@.len() ==> bounds@[j].0 <= bounds@[j].1 && bounds@[j].1 <= v@.len(),
            forall|j: int|
                0 <= j < bounds@.len() ==> v@.subrange(bounds@[j].0 as int, bounds@[j].1 as int) == #[trigger] ls[j],
            (pushed, found) == replace_prop(ls.subrange(0, k as int), pat@, prop@),
            count == pushed.len(),
            count <= k,
            out@ == join_lines(pushed),
        decreases bounds@.len() - k,
    {
        proof {
            assert(ls.subrange(0, k + 1).drop_last() =~= ls.subrange(0, k as int));
            assert(ls.subrange(0, k + 1).last() == ls[k as int]);
        }
        let (a, b) = bounds[k];
        assert(v@.subrange(a as int, b as int) == ls[k as int]);
        if slice_starts_with(v, a, b, &pat) {
            if !found {
                push_line(&mut out, count, prop, Ghost(pushed));
                proof {
                    pushed = pushed.push(prop@);
                }
                count = count + 1;
                found = true;
            }
        } else {
            let line = sub_vec(v, a, b);
            push_line(&mut out, count, &line, Ghost(pushed));
            proof {
                pushed = pushed.push(line@);
            }
            count = count + 1;
        }
        k = k + 1;
    }
    proof {
        assert(ls.subrange(0, bounds@.len() as int) =~= ls);
    }
    if !found {
        push_line(&mut out, count, prop, Ghost(pushed));
    }
    let n = out.len();
    if !(n > 0 && out[n - 1] == '\n') {
        out.push('\n');
    }
    out
}

/// Sets each property line of `props` in `content` in turn; see [`with_props`].
pub fn patch_props_content(content: &str, props: &[&str]) -> (r: String)
    ensures
        r@ == with_props(content@, props@.map_values(|p: &str| p@)),
{
    let ghost all = props@.map_values(|p: &str| p@);
    let mut cur = chars_of(content);
    let mut k: usize = 0;
    while k < props.len()
        invariant
            k <= props@.len(),
            all == props@.map_values(|p: &str| p@),
            cur@ == with_props(content@, all.subrange(0, k as int)),
        decreases props@.len() - k,
    {
        proof {
            assert(all.subrange(0, k + 1).drop_last() =~= all.subrange(0, k as int));
            assert(all.subrange(0, k + 1).last() == props@[k as int]@);
        }
        let prop = chars_of(props[k]);
        cur = set_prop(&cur, &prop);
        k = k + 1;
    }
    proof {
        assert(all.subrange(0, props@.len() as int) =~= all);
    }
    string_of(cur.as_slice())
}

/// After text that ends a line, the segments of what follows start afresh.
proof fn lemma_segments_concat(a: Seq<char>, x: Seq<char>)
    requires
        a.len() == 0 || a.last() == '\n',
    ensures
        segments(a + x) == segments(a).drop_last() + segments(x),
    decreases x.len(),
{
    lemma_segments_len(a);
    lemma_segments_after_feed(a);
    if x.len() == 0 {
        assert(a + x =~= a);
        assert(segments(x) =~= seq![Seq::<char>::empty()]);
        assert(segments(a).drop_last() + segments(x) =~= segments(a));
    } else {
        let y = x.drop_last();
        lemma_segments_concat(a, y);
        lemma_segments_len(y);
        assert((a + x).drop_last() =~= a + y);
        assert((a + x).last() == x.last());
        let sa = segments(a).drop_last();
        let sy = segments(y);
        if x.last() == '\n' {
            assert(segments(a + x) =~= sa + sy.push(Seq::<char>::empty()));
        } else {
            assert((sa + sy).last() == sy.last());
            assert(segments(a + x) =~= sa + sy.update(sy.len() - 1, sy.last().push(x.last())));
        }
    }
}

/// The lines of text that ends a line, followed by more, are its lines
/// followed by those of the rest.
pub proof fn lemma_lines_concat(a: Seq<char>, x: Seq<char>)
    requires
        a.len() == 0 || a.last() == '\n',
    ensures
        lines(a + x) == lines(a) + lines(x),
{
    lemma_segments_concat(a, x);
    lemma_segments_len(a);
    lemma_segments_len(x);
    lemma_segments_after_feed(a);
    let sa = segments(a).drop_last();
    let sx = segments(x);
    let all = segments(a + x);
    assert(all.drop_last() =~= sa + sx.drop_last());
    assert(all.last() == sx.last());
    assert(sa + sx.drop_last() == all.drop_last());
    assert((sa + sx.drop_last()).map_values(|l: Seq<char>| strip_cr(l)) =~= sa.map_values(|l: Seq<char>| strip_cr(l))
        + sx.drop_last().map_values(|l: Seq<char>| strip_cr(l)));
    assert(lines(a) =~= sa.map_values(|l: Seq<char>| strip_cr(l)));
    assert(lines(a + x) =~= lines(a) + lines(x));
}

/// Leading white space does not change the trimmed text.
proof fn lemma_trim_skip_space(c: char, s: Seq<char>)
    requires
        is_space(c),
    ensures
        trim(seq![c] + s) == trim(s),
{
    assert((seq![c] + s).drop_first() =~= s);
}

/// Text that ends a line keeps its trimmed lines when more is appended.
proof fn lemma_has_line_append(a: Seq<char>, x: Seq<char>, target: Seq<char>)
    requires
        a.len() == 0 || a.last() == '\n',
    ensures
        has_trimmed_line(a, target) || has_trimmed_line(x, target) ==> has_trimmed_line(a + x, target),
{
    lemma_lines_concat(a, x);
    if has_trimmed_line(a, target) {
        let k = choose|k: int| 0 <= k < lines(a).len() && trim(#[trigger] lines(a)[k]) == target;
        assert(lines(a + x)[k] == lines(a)[k]);
    } else if has_trimmed_line(x, target) {
        let k = choose|k: int| 0 <= k < lines(x).len() && trim(#[trigger] lines(x)[k]) == target;
        assert(lines(a + x)[lines(a).len() + k] == lines(x)[k]);
    }
}

/// An indented line added after text that ends a line is one of its
/// trimmed lines afterwards.
proof fn lemma_indented_line(a: Seq<char>, e: Seq<char>)
    requires
        a.len() == 0 || a.last() == '\n',
        forall|i: int| 0 <= i < e.len() ==> e[i] != '\n',
    ensures
        has_trimmed_line(a + "    "@ + e.push('\n'), trim(e)),
        (a + "    "@ + e.push('\n')).last() == '\n',
{
    reveal_strlit("    ");
    let x = "    "@ + e.push('\n');
    assert(a + "    "@ + e.push('\n') =~= a + x);
    lemma_with_line_has_line(Seq::<char>::empty(), "    "@ + e);
    assert(with_line(Seq::<char>::empty(), "    "@ + e) =~= x);
    let line = "    "@ + e;
    assert(line =~= seq![' '] + (seq![' '] + (seq![' '] + (seq![' '] + e))));
    lemma_trim_skip_space(' ', seq![' '] + (seq![' '] + (seq![' '] + e)));
    lemma_trim_skip_space(' ', seq![' '] + (seq![' '] + e));
    lemma_trim_skip_space(' ', seq![' '] + e);
    lemma_trim_skip_space(' ', e);
    lemma_has_line_append(a, x, trim(e));
}

/// What a text mentions, it still mentions with more appended.
proof fn lemma_contains_append(a: Seq<char>, x: Seq<char>, pat: Seq<char>)
    requires
        contains_text(a, pat),
    ensures
        contains_text(a + x, pat),
{
    let i = choose|i: int| 0 <= i && i + pat.len() <= a.len() && #[trigger] a.subrange(i, i + pat.len()) == pat;
    assert((a + x).subrange(i, i + pat.len()) =~= a.subrange(i, i + pat.len()));
}

/// Opening the `on init` section leaves a script that mentions it and ends a line.
proof fn lemma_with_on_init(c: Seq<char>)
    requires
        c.len() == 0 || c.last() == '\n',
    ensures
        contains_text(with_on_init(c), "on init"@),
        with_on_init(c).len() > 0 && with_on_init(c).last() == '\n',
{
    reveal_strlit("on init");
    reveal_strlit("\non init\n");
    if !contains_text(c, "on init"@) {
        let s = c + "\non init\n"@;
        let i: int = c.len() as int + 1;
        assert(s.subrange(i, i + "on init"@.len()) =~= "on init"@);
    } else {
        let i = choose|i: int| 0 <= i && i + "on init"@.len() <= c.len() && #[trigger] c.subrange(
            i,
            i + "on init"@.len(),
        ) == "on init"@;
        assert(c.len() > 0);
    }
}

/// Environment lines without line feeds, already trimmed.
pub open spec fn plain_lines(env: Seq<Seq<char>>) -> bool {
    &&& forall|j: int, i: int| 0 <= j < env.len() && 0 <= i < env[j].len() ==> #[trigger] env[j][i] != '\n'
    &&& forall|j: int| 0 <= j < env.len() ==> trim(#[trigger] env[j]) == env[j]
}

/// Adding environment lines to a script that ends a line and mentions `on
/// init` keeps both, and each of the lines is then a trimmed line of it.
proof fn lemma_env_lines_added(c: Seq<char>, env: Seq<Seq<char>>)
    requires
        c.len() > 0 && c.last() == '\n',
        contains_text(c, "on init"@),
        plain_lines(env),
    ensures
        ({
            let r = with_env_lines(c, env);
            &&& r.len() > 0 && r.last() == '\n'
            &&& contains_text(r, "on init"@)
            &&& forall|j: int| 0 <= j < env.len() ==> has_trimmed_line(r, #[trigger] env[j])
        }),
    decreases env.len(),
{
    if env.len() > 0 {
        let rest = env.drop_last();
        assert forall|j: int, i: int| 0 <= j < rest.len() && 0 <= i < rest[j].len() implies #[trigger] rest[j][i]
            != '\n' by {
            assert(rest[j] == env[j]);
        }
        assert forall|j: int| 0 <= j < rest.len() implies trim(#[trigger] rest[j]) == rest[j] by {
            assert(rest[j] == env[j]);
        }
        lemma_env_lines_added(c, rest);
        let prev = with_env_lines(c, rest);
        let e = env.last();
        assert(trim(env[env.len() - 1]) == env[env.len() - 1]);
        if !has_trimmed_line(prev, e) {
            let x = "    "@ + e.push('\n');
            assert forall|i: int| 0 <= i < e.len() implies e[i] != '\n' by {
                assert(env[env.len() - 1][i] != '\n');
            }
            lemma_indented_line(prev, e);
            assert(prev + "    "@ + e.push('\n') =~= prev + x);
            lemma_contains_append(prev, x, "on init"@);
            assert forall|j: int| 0 <= j < env.len() implies has_trimmed_line(
                with_env_lines(c, env),
                #[trigger] env[j],
            ) by {
                if j < env.len() - 1 {
                    assert(env[j] == rest[j]);
                    lemma_has_line_append(prev, x, env[j]);
                }
            }
        } else {
            assert forall|j: int| 0 <= j < env.len() implies has_trimmed_line(
                with_env_lines(c, env),
                #[trigger] env[j],
            ) by {
                if j < env.len() - 1 {
                    assert(env[j] == rest[j]);
                }
            }
        }
    }
}

/// Lines that are all present already add nothing.
proof fn lemma_env_lines_present(c: Seq<char>, env: Seq<Seq<char>>)
    requires
        forall|j: int| 0 <= j < env.len() ==> has_trimmed_line(c, #[trigger] env[j]),
    ensures
        with_env_lines(c, env) == c,
    decreases env.len(),
{
    if env.len() > 0 {
        let rest = env.drop_last();
        assert forall|j: int| 0 <= j < rest.len() implies has_trimmed_line(c, #[trigger] rest[j]) by {
            assert(rest[j] == env[j]);
        }
        lemma_env_lines_present(c, rest);
        assert(has_trimmed_line(c, env[env.len() - 1]));
    }
}

/// Patching an init script a second time changes nothing, when the script
/// ends a line (or is empty) and the environment lines are trimmed and hold
/// no line feed.
pub proof fn lemma_init_environ_patch_idempotent(c: Seq<char>, env: Seq<Seq<char>>)
    requires
        c.len() == 0 || c.last() == '\n',
        plain_lines(env),
    ensures
        patched_init_environ(patched_init_environ(c, env), env) == patched_init_environ(c, env),
{
    lemma_with_on_init(c);
    let c1 = with_on_init(c);
    lemma_env_lines_added(c1, env);
    let c2 = with_env_lines(c1, env);
    assert(with_on_init(c2) == c2);
    lemma_env_lines_present(c2, env);
}

/// Whether `x` is one of the lines of `s`.
pub open spec fn has_exact_line(s: Seq<char>, x: Seq<char>) -> bool {
    lines(s).contains(x)
}

/// Whether `x` holds no line feed.
pub open spec fn no_feed(x: Seq<char>) -> bool {
    forall|i: int| 0 <= i < x.len() ==> x[i] != '\n'
}

/// A piece without line feeds is a single segment.
proof fn lemma_segments_single(x: Seq<char>)
    requires
        no_feed(x),
    ensures
        segments(x) == seq![x],
{
    lemma_segments_extend(Seq::<char>::empty(), x);
    assert(Seq::<char>::empty() + x =~= x);
    assert(seq![Seq::<char>::empty()].update(0, Seq::<char>::empty() + x) =~= seq![x]);
}

/// Segments hold no line feeds.
proof fn lemma_segments_no_feed(s: Seq<char>)
    ensures
        forall|k: int| 0 <= k < segments(s).len() ==> no_feed(#[trigger] segments(s)[k]),
    decreases s.len(),
{
    lemma_segments_len(s);
    if s.len() > 0 {
        lemma_segments_no_feed(s.drop_last());
        lemma_segments_len(s.drop_last());
    }
}

/// Lines hold no line feeds.
proof fn lemma_lines_no_feed(s: Seq<char>)
    ensures
        forall|k: int| 0 <= k < lines(s).len() ==> no_feed(#[trigger] lines(s)[k]),
{
    lemma_segments_no_feed(s);
    lemma_segments_len(s);
    let segs = segments(s);
    assert forall|k: int| 0 <= k < lines(s).len() implies no_feed(#[trigger] lines(s)[k]) by {
        if k < segs.len() - 1 {
            assert(lines(s)[k] == strip_cr(segs[k]));
            assert(no_feed(segs[k]));
        } else {
            assert(lines(s)[k] == segs.last());
        }
    }
}

/// Lines without line feeds joined give back those lines as segments.
proof fn lemma_segments_join(ls: Seq<Seq<char>>)
    requires
        ls.len() >= 1,
        forall|k: int| 0 <= k < ls.len() ==> no_feed(#[trigger] ls[k]),
    ensures
        segments(join_lines(ls)) == ls,
    decreases ls.len(),
{
    if ls.len() == 1 {
        lemma_segments_single(ls[0]);
        assert(seq![ls[0]] =~= ls);
    } else {
        let rest = ls.drop_last();
        assert forall|k: int| 0 <= k < rest.len() implies no_feed(#[trigger] rest[k]) by {
            assert(rest[k] == ls[k]);
        }
        lemma_segments_join(rest);
        let a = join_lines(rest).push('\n');
        assert(join_lines(ls) =~= a + ls.last());
        lemma_segments_concat(a, ls.last());
        assert(a.drop_last() =~= join_lines(rest));
        assert(segments(a) == rest.push(Seq::<char>::empty()));
        assert(no_feed(ls[ls.len() - 1]));
        lemma_segments_single(ls.last());
        assert(segments(a).drop_last() =~= rest);
        assert(rest + seq![ls.last()] =~= ls);
    }
}

/// Joined lines, ended with a line feed when they do not end in one, have
/// each of the lines that is not empty and ends in no carriage return as a line.
proof fn lemma_lines_of_joined(ls: Seq<Seq<char>>, x: Seq<char>)
    requires
        ls.len() >= 1,
        forall|k: int| 0 <= k < ls.len() ==> no_feed(#[trigger] ls[k]),
        ls.contains(x),
        x.len() > 0,
        x.last() != '\r',
    ensures
        ({
            let joined = join_lines(ls);
            has_exact_line(
                if joined.len() > 0 && joined.last() == '\n' {
                    joined
                } else {
                    joined.push('\n')
                },
                x,
            )
        }),
{
    let joined = join_lines(ls);
    lemma_segments_join(ls);
    let k = choose|k: int| 0 <= k < ls.len() && ls[k] == x;
    if joined.len() > 0 && joined.last() == '\n' {
        lemma_segments_after_feed(joined);
        assert(ls.last().len() == 0);
        assert(k < ls.len() - 1);
        assert(lines(joined)[k] == strip_cr(ls[k]));
    } else {
        let s = joined.push('\n');
        assert(s.drop_last() =~= joined);
        assert(segments(s) == ls.push(Seq::<char>::empty()));
        assert(segments(s).drop_last() =~= ls);
        assert(lines(s)[k] == strip_cr(ls[k]));
    }
}

/// Replacing keeps the lines that do not begin with the pattern, and adds
/// nothing but the property.
proof fn lemma_replace_prop(ls: Seq<Seq<char>>, pat: Seq<char>, prop: Seq<char>)
    ensures
        ({
            let (kept, found) = replace_prop(ls, pat, prop);
            &&& found ==> kept.contains(prop)
            &&& forall|x: Seq<char>| ls.contains(x) && !starts_with(x, pat) ==> kept.contains(x)
            &&& forall|k: int| 0 <= k < kept.len() ==> ls.contains(#[trigger] kept[k]) || kept[k] == prop
        }),
    decreases ls.len(),
{
    if ls.len() > 0 {
        let rest = ls.drop_last();
        lemma_replace_prop(rest, pat, prop);
        let (kept0, found0) = replace_prop(rest, pat, prop);
        let (kept, found) = replace_prop(ls, pat, prop);
        assert forall|x: Seq<char>| ls.contains(x) && !starts_with(x, pat) implies kept.contains(x) by {
            let k = choose|k: int| 0 <= k < ls.len() && ls[k] == x;
            if k < ls.len() - 1 {
                assert(rest[k] == x);
                assert(rest.contains(x));
                let w = choose|w: int| 0 <= w < kept0.len() && kept0[w] == x;
                assert(kept[w] == x);
            } else {
                assert(kept == kept0.push(x));
                assert(kept[kept0.len() as int] == x);
            }
        }
        if found {
            if found0 {
                let w = choose|w: int| 0 <= w < kept0.len() && kept0[w] == prop;
                assert(kept[w] == prop);
            } else {
                assert(kept[kept0.len() as int] == prop);
            }
        }
        assert forall|k: int| 0 <= k < kept.len() implies ls.contains(#[trigger] kept[k]) || kept[k] == prop by {
            if k < kept0.len() {
                assert(kept[k] == kept0[k]);
                if rest.contains(kept0[k]) {
                    let w = choose|w: int| 0 <= w < rest.len() && rest[w] == kept0[k];
                    assert(ls[w] == kept0[k]);
                }
            } else {
                assert(kept[k] == ls.last() || kept[k] == prop);
                if kept[k] == ls.last() {
                    assert(ls[ls.len() - 1] == kept[k]);
                }
            }
        }
    }
}

/// After setting a property, it is a line of the file, and so is every line
/// that was there and does not set the same key.
proof fn lemma_with_prop_lines(c: Seq<char>, p: Seq<char>, x: Seq<char>)
    requires
        no_feed(p),
        p.len() > 0,
        p.last() != '\r',
    ensures
        has_exact_line(with_prop(c, p), p),
        has_exact_line(c, x) && x.len() > 0 && x.last() != '\r' && !starts_with(x, prop_key(p).push('='))
            ==> has_exact_line(with_prop(c, p), x),
{
    let pat = prop_key(p).push('=');
    let ls = lines(c);
    lemma_replace_prop(ls, pat, p);
    lemma_lines_no_feed(c);
    let (kept, found) = replace_prop(ls, pat, p);
    let all = if found {
        kept
    } else {
        kept.push(p)
    };
    assert(all.contains(p)) by {
        if !found {
            assert(all[kept.len() as int] == p);
        }
    }
    assert forall|k: int| 0 <= k < all.len() implies no_feed(#[trigger] all[k]) by {
        if k < kept.len() {
            assert(all[k] == kept[k]);
            if ls.contains(kept[k]) {
                let w = choose|w: int| 0 <= w < ls.len() && ls[w] == kept[k];
                assert(no_feed(ls[w]));
            }
        }
    }
    lemma_lines_of_joined(all, p);
    if has_exact_line(c, x) && x.len() > 0 && x.last() != '\r' && !starts_with(x, pat) {
        assert(kept.contains(x));
        assert(all.contains(x)) by {
            let w = choose|w: int| 0 <= w < kept.len() && kept[w] == x;
            assert(all[w] == x);
        }
        lemma_lines_of_joined(all, x);
    }
}

/// A key holds no `=`.
proof fn lemma_prop_key_no_eq(q: Seq<char>)
    ensures
        forall|i: int| 0 <= i < prop_key(q).len() ==> prop_key(q)[i] != '=',
    decreases q.len(),
{
    if q.len() > 0 && q[0] != '=' {
        lemma_prop_key_no_eq(q.drop_first());
        let k = prop_key(q);
        assert forall|i: int| 0 <= i < k.len() implies k[i] != '=' by {
            if i > 0 {
                assert(k[i] == prop_key(q.drop_first())[i - 1]);
            }
        }
    }
}

/// The key of a line is what precedes its first `=`.
pub proof fn lemma_prop_key_at(x: Seq<char>, n: int)
    requires
        0 <= n < x.len(),
        x[n] == '=',
        forall|i: int| 0 <= i < n ==> x[i] != '=',
    ensures
        prop_key(x) == x.subrange(0, n),
    decreases n,
{
    if n > 0 {
        let t = x.drop_first();
        assert forall|i: int| 0 <= i < n - 1 implies t[i] != '=' by {
            assert(t[i] == x[i + 1]);
        }
        lemma_prop_key_at(t, n - 1);
        assert(seq![x[0]] + t.subrange(0, n - 1) =~= x.subrange(0, n));
    } else {
        assert(x.subrange(0, 0) =~= Seq::<char>::empty());
    }
}

/// A line that begins with the key of `q` and `=` sets that key.
proof fn lemma_same_key(x: Seq<char>, q: Seq<char>)
    requires
        starts_with(x, prop_key(q).push('=')),
    ensures
        prop_key(x) == prop_key(q),
{
    let k = prop_key(q);
    lemma_prop_key_no_eq(q);
    let n = k.len() as int;
    assert forall|i: int| 0 <= i < n implies x[i] != '=' by {
        assert(x.subrange(0, n + 1)[i] == k.push('=')[i]);
    }
    assert(x.subrange(0, n + 1)[n] == '=');
    lemma_prop_key_at(x, n);
    assert(x.subrange(0, n) =~= k);
}

/// Property lines that hold no line feed, are not empty, do not end in a
/// carriage return, and set different keys.
pub open spec fn distinct_props(props: Seq<Seq<char>>) -> bool {
    &&& forall|j: int|
        0 <= j < props.len() ==> no_feed(#[trigger] props[j]) && props[j].len() > 0 && props[j].last() != '\r'
    &&& forall|j: int, k: int| 0 <= j < k < props.len() ==> prop_key(#[trigger] props[j]) != prop_key(#[trigger] props[k])
}

/// After the properties are set, each of them is a line of the file.
pub proof fn lemma_props_set(c: Seq<char>, props: Seq<Seq<char>>)
    requires
        distinct_props(props),
    ensures
        forall|j: int| 0 <= j < props.len() ==> has_exact_line(with_props(c, props), #[trigger] props[j]),
    decreases props.len(),
{
    if props.len() > 0 {
        let rest = props.drop_last();
        assert forall|j: int| 0 <= j < rest.len() implies no_feed(#[trigger] rest[j]) && rest[j].len() > 0
            && rest[j].last() != '\r' by {
            assert(rest[j] == props[j]);
        }
        assert forall|j: int, k: int| 0 <= j < k < rest.len() implies prop_key(#[trigger] rest[j]) != prop_key(
            #[trigger] rest[k],
        ) by {
            assert(rest[j] == props[j] && rest[k] == props[k]);
        }
        lemma_props_set(c, rest);
        let prev = with_props(c, rest);
        let last = props.len() - 1;
        let p = props[last];
        assert(no_feed(p) && p.len() > 0 && p.last() != '\r');
        lemma_with_prop_lines(prev, p, p);
        assert forall|j: int| 0 <= j < props.len() implies has_exact_line(with_props(c, props), #[trigger] props[j]) by {
            if j < last {
                let x = props[j];
                assert(x == rest[j]);
                assert(has_exact_line(prev, x));
                assert(no_feed(x) && x.len() > 0 && x.last() != '\r');
                if starts_with(x, prop_key(p).push('=')) {
                    lemma_same_key(x, p);
                    assert(prop_key(props[j]) != prop_key(props[last]));
                }
                lemma_with_prop_lines(prev, p, x);
            }
        }
    }
}


/// Whether exactly one line of `s`, trimmed, is `target`.
pub open spec fn exactly_one_trimmed_line(s: Seq<char>, target: Seq<char>) -> bool {
    exists|k: int|
        0 <= k < lines(s).len() && trim(#[trigger] lines(s)[k]) == target && forall|j: int|
            0 <= j < lines(s).len() && j != k ==> trim(#[trigger] lines(s)[j]) != target
}

/// A trailing carriage return does not change the trimmed line.
proof fn lemma_trim_strip_cr(l: Seq<char>)
    ensures
        trim(strip_cr(l)) == trim(l),
{
    if l.len() > 0 && l.last() == '\r' {
        lemma_trim_drop_space(l);
    }
}

/// Ending text with a line feed keeps its lines, trimmed.
proof fn lemma_lines_feed(c: Seq<char>)
    requires
        c.len() > 0,
        c.last() != '\n',
    ensures
        lines(c.push('\n')).len() == lines(c).len(),
        forall|j: int| 0 <= j < lines(c).len() ==> trim(#[trigger] lines(c.push('\n'))[j]) == trim(lines(c)[j]),
{
    lemma_segments_len(c.drop_last());
    lemma_segments_len(c);
    let sg = segments(c);
    assert(sg.last().len() > 0);
    assert(c.push('\n').drop_last() =~= c);
    assert(segments(c.push('\n')) == sg.push(Seq::<char>::empty()));
    assert(segments(c.push('\n')).drop_last() =~= sg);
    assert forall|j: int| 0 <= j < lines(c).len() implies trim(#[trigger] lines(c.push('\n'))[j]) == trim(
        lines(c)[j],
    ) by {
        assert(lines(c.push('\n'))[j] == strip_cr(sg[j]));
        if j < sg.len() - 1 {
            assert(lines(c)[j] == strip_cr(sg[j]));
        } else {
            assert(lines(c)[j] == sg.last());
            lemma_trim_strip_cr(sg[j]);
        }
    }
}

/// A line without line feeds added to content that has no trimmed line
/// equal to it is afterwards exactly one of its trimmed lines.
pub proof fn lemma_with_line_once(content: Seq<char>, line: Seq<char>)
    requires
        forall|i: int| 0 <= i < line.len() ==> line[i] != '\n',
        !has_trimmed_line(content, trim(line)),
    ensures
        exactly_one_trimmed_line(with_line(content, line), trim(line)),
{
    let a = if content.len() > 0 && content.last() != '\n' {
        content.push('\n')
    } else {
        content
    };
    let x = line.push('\n');
    assert(with_line(content, line) =~= a + x);
    assert(a.len() == 0 || a.last() == '\n');
    lemma_lines_concat(a, x);
    assert(no_feed(line));
    lemma_segments_single(line);
    assert(x.drop_last() =~= line);
    assert(segments(x) == seq![line].push(Seq::<char>::empty()));
    assert(segments(x).drop_last() =~= seq![line]);
    assert(lines(x) =~= seq![strip_cr(line)]);
    lemma_trim_strip_cr(line);
    let la = lines(a);
    let all = lines(a + x);
    let k = la.len() as int;
    assert(all[k] == strip_cr(line));
    if a != content {
        lemma_lines_feed(content);
    }
    assert forall|j: int| 0 <= j < all.len() && j != k implies trim(#[trigger] all[j]) != trim(line) by {
        assert(all[j] == la[j]);
        if a != content {
            assert(trim(la[j]) == trim(lines(content)[j]));
        }
        if trim(lines(content)[j]) == trim(line) {
            assert(has_trimmed_line(content, trim(line)));
        }
    }
}
} // verus!
