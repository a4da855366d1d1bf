//! Text operations on strings, stated over their characters.

use vstd::prelude::*;

verus! {

pub assume_specification[ String::push ](s: &mut String, ch: char)
    ensures
        final(s)@ == old(s)@.push(ch),
;

pub assume_specification[ String::pop ](s: &mut String) -> (r: Option<char>)
    ensures
        old(s)@.len() == 0 ==> r is None && final(s)@ == old(s)@,
        old(s)@.len() > 0 ==> r == Some(old(s)@.last()) && final(s)@ == old(s)@.drop_last(),
;

/// The characters that Unicode gives the White_Space property.
pub open spec fn is_white(c: char) -> bool {
    ||| '\u{9}' <= c <= '\u{d}'
    ||| c == ' '
    ||| c == '\u{85}'
    ||| c == '\u{a0}'
    ||| c == '\u{1680}'
    ||| '\u{2000}' <= c <= '\u{200a}'
    ||| c == '\u{2028}'
    ||| c == '\u{2029}'
    ||| c == '\u{202f}'
    ||| c == '\u{205f}'
    ||| c == '\u{3000}'
}

/// Whether a character is white space.
pub fn char_is_white(c: char) -> (r: bool)
    ensures
        r == is_white(c),
{
    ('\u{9}' <= c && c <= '\u{d}') || c == ' ' || c == '\u{85}' || c == '\u{a0}' || c == '\u{1680}'
        || ('\u{2000}' <= c && c <= '\u{200a}') || c == '\u{2028}' || c == '\u{2029}' || c
        == '\u{202f}' || c == '\u{205f}' || c == '\u{3000}'
}

/// The characters of a string slice, in order.
pub fn chars_of(s: &str) -> (r: Vec<char>)
    ensures
        r@ == s@,
{
    let mut r = Vec::new();
    for c in it: s.chars()
        invariant
            r@ == it.seq().take(it.index() as int),
    {
        r.push(c);
    }
    assert(r@ =~= s@);
    r
}

/// A string made of the characters `v[start..end]`.
pub fn string_of(v: &Vec<char>, start: usize, end: usize) -> (r: String)
    requires
        start <= end <= v@.len(),
    ensures
        r@ == v@.subrange(start as int, end as int),
{
    let mut r = String::new();
    let mut i = start;
    while i < end
        invariant
            start <= i <= end <= v@.len(),
            r@ == v@.subrange(start as int, i as int),
        decreases end - i,
    {
        r.push(v[i]);
        i += 1;
        assert(r@ =~= v@.subrange(start as int, i as int));
    }
    r
}


/// Drops the white space at the front.
pub open spec fn trim_start(s: Seq<char>) -> Seq<char>
    decreases s.len(),
{
    if s.len() > 0 && is_white(s[0]) {
        trim_start(s.drop_first())
    } else {
        s
    }
}

/// Drops the white space at the back.
pub open spec fn trim_end(s: Seq<char>) -> Seq<char>
    decreases s.len(),
{
    if s.len() > 0 && is_white(s.last()) {
        trim_end(s.drop_last())
    } else {
        s
    }
}

/// Drops the white space at both ends.
pub open spec fn trim(s: Seq<char>) -> Seq<char> {
    trim_end(trim_start(s))
}

/// The string without its leading and trailing white space.
pub fn trimmed(s: &str) -> (r: String)
    ensures
        r@ == trim(s@),
{
    let v = chars_of(s);
    let n = v.len();
    let mut start: usize = 0;
    assert(s@.skip(0) =~= s@);
    while start < n && char_is_white(v[start])
        invariant
            v@ == s@,
            n == v@.len(),
            start <= n,
            trim_start(s@) == trim_start(s@.skip(start as int)),
        decreases n - start,
    {
        assert(s@.skip(start as int).drop_first() =~= s@.skip(start + 1));
        start += 1;
    }
    assert(trim_start(s@) == s@.skip(start as int));
    let mut end: usize = n;
    while end > start && char_is_white(v[end - 1])
        invariant
            v@ == s@,
            n == v@.len(),
            start <= end <= n,
            trim_end(s@.skip(start as int)) == trim_end(s@.subrange(start as int, end as int)),
        decreases end - start,
    {
        assert(s@.subrange(start as int, end as int).drop_last() =~= s@.subrange(
            start as int,
            end - 1,
        ));
        end -= 1;
    }
    assert(s@.skip(start as int) =~= s@.subrange(start as int, n as int));
    string_of(&v, start, end)
}

/// Splits at every `sep`: the pieces between separators, in order.
pub open spec fn split(s: Seq<char>, sep: char) -> Seq<Seq<char>>
    decreases s.len(),
{
    if s.len() == 0 {
        seq![Seq::<char>::empty()]
    } else {
        let rest = split(s.drop_last(), sep);
        if s.last() == sep {
            rest.push(Seq::<char>::empty())
        } else {
            rest.update(rest.len() - 1, rest.last().push(s.last()))
        }
    }
}

pub proof fn lemma_split_nonempty(s: Seq<char>, sep: char)
    ensures
        split(s, sep).len() >= 1,
    decreases s.len(),
{
    if s.len() > 0 {
        lemma_split_nonempty(s.drop_last(), sep);
    }
}

/// The views of a sequence of strings.
pub open spec fn views(v: Seq<String>) -> Seq<Seq<char>> {
    v.map_values(|x: String| x@)
}

/// The pieces of `s` between the occurrences of `sep`.
pub fn split_at_char(s: &str, sep: char) -> (r: Vec<String>)
    ensures
        views(r@) == split(s@, sep),
{
    let v = chars_of(s);
    let mut out: Vec<String> = Vec::new();
    let mut cur = String::new();
    let mut i: usize = 0;
    assert(s@.take(0) =~= Seq::<char>::empty());
    while i < v.len()
        invariant
            v@ == s@,
            i <= v@.len(),
            views(out@).push(cur@) == split(s@.take(i as int), sep),
        decreases v@.len() - i,
    {
        let c = v[i];
        let ghost before = s@.take(i as int);
        assert(s@.take(i + 1).drop_last() =~= before);
        proof { lemma_split_nonempty(before, sep); }
        if c == sep {
            out.push(cur);
            cur = String::new();
            assert(views(out@).push(cur@) =~= split(before, sep).push(Seq::<char>::empty()));
        } else {
            let ghost old_cur = cur@;
            cur.push(c);
            assert(views(out@).push(cur@) =~= split(before, sep).update(
                split(before, sep).len() - 1,
                old_cur.push(c),
            ));
        }
        i += 1;
    }
    assert(s@.take(v@.len() as int) =~= s@);
    out.push(cur);
    assert(views(out@) =~= split(s@, sep));
    out
}

/// `s` with every `c` left out.
pub open spec fn without_char(s: Seq<char>, c: char) -> Seq<char>
    decreases s.len(),
{
    if s.len() == 0 {
        s
    } else if s.last() == c {
        without_char(s.drop_last(), c)
    } else {
        without_char(s.drop_last(), c).push(s.last())
    }
}

/// The string with every `c` removed.
pub fn remove_char(s: &str, c: char) -> (r: String)
    ensures
        r@ == without_char(s@, c),
{
    let v = chars_of(s);
    let mut r = String::new();
    let mut i: usize = 0;
    assert(s@.take(0) =~= Seq::<char>::empty());
    while i < v.len()
        invariant
            v@ == s@,
            i <= v@.len(),
            r@ == without_char(s@.take(i as int), c),
        decreases v@.len() - i,
    {
        assert(s@.take(i + 1).drop_last() =~= s@.take(i as int));
        if v[i] != c {
            r.push(v[i]);
        }
        i += 1;
    }
    assert(s@.take(v@.len() as int) =~= s@);
    r
}

/// Whether `needle` occurs in `hay` as a run of consecutive characters.
pub open spec fn occurs_in(needle: Seq<char>, hay: Seq<char>) -> bool {
    exists|i: int| 0 <= i && i + needle.len() <= hay.len() && #[trigger] hay.subrange(i, i + needle.len()) == needle
}

/// Whether `needle` occurs at position `i` of `hay`.
fn occurs_at(hay: &Vec<char>, needle: &Vec<char>, i: usize) -> (r: bool)
    requires
        i + needle@.len() <= hay@.len(),
    ensures
        r == (hay@.subrange(i as int, i + needle@.len()) == needle@),
{
    let mut j: usize = 0;
    while j < needle.len()
        invariant
            i + needle@.len() <= hay@.len(),
            hay@.len() == hay.len(),
            j <= needle@.len(),
            forall|k: int| 0 <= k < j ==> hay@[i + k] == needle@[k],
        decreases needle@.len() - j,
    {
        if hay[i + j] != needle[j] {
            assert(hay@.subrange(i as int, i + needle@.len())[j as int] != needle@[j as int]);
            return false;
        }
        j += 1;
    }
    assert(hay@.subrange(i as int, i + needle@.len()) =~= needle@);
    true
}

/// Whether `needle` occurs in `hay`.
pub fn contains(hay: &str, needle: &str) -> (r: bool)
    ensures
        r == occurs_in(needle@, hay@),
{
    let h = chars_of(hay);
    let n = chars_of(needle);
    if n.len() > h.len() {
        return false;
    }
    let last = h.len() - n.len();
    let mut i: usize = 0;
    loop
        invariant
            h@ == hay@,
            n@ == needle@,
            last == h@.len() - n@.len(),
            n@.len() <= h@.len(),
            i <= last,
            forall|k: int| 0 <= k < i ==> #[trigger] hay@.subrange(k, k + needle@.len()) != needle@,
        decreases last - i,
    {
        if occurs_at(&h, &n, i) {
            return true;
        }
        if i == last {
            return false;
        }
        i += 1;
    }
}

/// The lines, each followed by a newline.
pub open spec fn join_lines(lines: Seq<Seq<char>>) -> Seq<char>
    decreases lines.len(),
{
    if lines.len() == 0 {
        Seq::<char>::empty()
    } else {
        join_lines(lines.drop_last()) + lines.last() + seq!['\n']
    }
}

/// The lines joined, each followed by a newline.
pub fn lines_joined(lines: &Vec<String>) -> (r: String)
    ensures
        r@ == join_lines(views(lines@)),
{
    let mut r = String::new();
    let mut i: usize = 0;
    while i < lines.len()
        invariant
            i <= lines@.len(),
            r@ == join_lines(views(lines@.take(i as int))),
        decreases lines@.len() - i,
    {
        assert(views(lines@.take(i + 1)).drop_last() =~= views(lines@.take(i as int)));
        r.append(lines[i].as_str());
        r.push('\n');
        i += 1;
    }
    assert(lines@.take(lines@.len() as int) =~= lines@);
    r
}

/// The items, each followed by a comma and a space.
pub open spec fn join_items(items: Seq<Seq<char>>) -> Seq<char>
    decreases items.len(),
{
    if items.len() == 0 {
        Seq::<char>::empty()
    } else {
        join_items(items.drop_last()) + items.last() + seq![',', ' ']
    }
}

/// The items joined, each followed by a comma and a space.
pub fn items_joined(items: &Vec<String>) -> (r: String)
    ensures
        r@ == join_items(views(items@)),
{
    let mut r = String::new();
    let mut i: usize = 0;
    while i < items.len()
        invariant
            i <= items@.len(),
            r@ == join_items(views(items@.take(i as int))),
        decreases items@.len() - i,
    {
        assert(views(items@.take(i + 1)).drop_last() =~= views(items@.take(i as int)));
        r.append(items[i].as_str());
        r.push(',');
        r.push(' ');
        i += 1;
    }
    assert(items@.take(items@.len() as int) =~= items@);
    r
}

/// Splitting at newlines and joining the lines, each followed by a newline,
/// gives back the text with a newline added.
pub proof fn lemma_join_split_lines(s: Seq<char>)
    ensures
        join_lines(split(s, '\n')) == s.push('\n'),
    decreases s.len(),
{
    if s.len() > 0 {
        lemma_join_split_lines(s.drop_last());
        lemma_split_nonempty(s.drop_last(), '\n');
        let rest = split(s.drop_last(), '\n');
        assert(s.drop_last().push(s.last()) =~= s);
        if s.last() == '\n' {
            let pushed = rest.push(Seq::<char>::empty());
            assert(pushed.drop_last() =~= rest);
            assert(join_lines(pushed) == join_lines(rest) + Seq::<char>::empty() + seq!['\n']);
            assert(join_lines(pushed) =~= s.push('\n'));
            assert(split(s, '\n') == pushed);
        } else {
            let up = rest.update(rest.len() - 1, rest.last().push(s.last()));
            let x = join_lines(rest.drop_last()) + rest.last();
            assert(up.drop_last() =~= rest.drop_last());
            assert(join_lines(rest) == x + seq!['\n']);
            assert((x + seq!['\n']).drop_last() =~= x);
            assert(s.drop_last().push('\n').drop_last() =~= s.drop_last());
            assert(x == s.drop_last());
            assert(join_lines(up) == join_lines(rest.drop_last()) + rest.last().push(s.last()) + seq!['\n']);
            assert(join_lines(up) =~= s.push('\n'));
            assert(split(s, '\n') == up);
        }
    } else {
        assert(split(s, '\n') =~= seq![Seq::<char>::empty()]);
        assert(seq![Seq::<char>::empty()].drop_last() =~= Seq::<Seq<char>>::empty());
        let one = seq![Seq::<char>::empty()];
        assert(join_lines(one) == join_lines(one.drop_last()) + one.last() + seq!['\n']);
        assert(join_lines(one.drop_last()) == Seq::<char>::empty());
        assert(s =~= Seq::<char>::empty());
        assert(join_lines(one) =~= s.push('\n'));
    }
}

/// Leaving out a character that does not occur changes nothing.
pub proof fn lemma_without_absent(s: Seq<char>, c: char)
    requires
        !s.contains(c),
    ensures
        without_char(s, c) == s,
    decreases s.len(),
{
    if s.len() > 0 {
        assert(!s.drop_last().contains(c)) by {
            if s.drop_last().contains(c) {
                let k = choose|k: int| 0 <= k < s.drop_last().len() && s.drop_last()[k] == c;
                assert(s[k] == c);
            }
        }
        lemma_without_absent(s.drop_last(), c);
        assert(s.drop_last().push(s.last()) =~= s);
    }
}

/// A line without surrounding white space, without newlines, and not empty.
pub open spec fn is_clean_line(s: Seq<char>) -> bool {
    &&& s.len() > 0
    &&& !is_white(s[0])
    &&& !is_white(s.last())
    &&& !s.contains('\n')
}

/// Trimming a line without surrounding white space changes nothing.
pub proof fn lemma_trim_clean(s: Seq<char>)
    requires
        s.len() > 0,
        !is_white(s[0]),
        !is_white(s.last()),
    ensures
        trim(s) == s,
{
}

/// White space in front is trimmed away.
pub proof fn lemma_trim_after_white(w: char, s: Seq<char>)
    requires
        is_white(w),
        s.len() > 0,
        !is_white(s[0]),
        !is_white(s.last()),
    ensures
        trim(seq![w] + s) == s,
{
    let t = seq![w] + s;
    assert(t[0] == w);
    assert(t.drop_first() =~= s);
    assert(trim_start(t) == trim_start(s));
    assert(trim_start(s) == s);
    assert(trim_end(s) == s);
}

/// Appending text without separators extends the last piece.
pub proof fn lemma_split_append_plain(s: Seq<char>, w: Seq<char>, sep: char)
    requires
        !w.contains(sep),
    ensures
        split(s + w, sep) == split(s, sep).update(
            split(s, sep).len() - 1,
            split(s, sep).last() + w,
        ),
    decreases w.len(),
{
    lemma_split_nonempty(s, sep);
    if w.len() == 0 {
        assert(s + w =~= s);
        assert(split(s, sep).last() + w =~= split(s, sep).last());
        assert(split(s, sep).update(split(s, sep).len() - 1, split(s, sep).last()) =~= split(s, sep));
    } else {
        let w0 = w.drop_last();
        assert(!w0.contains(sep)) by {
            if w0.contains(sep) {
                let k = choose|k: int| 0 <= k < w0.len() && w0[k] == sep;
                assert(w[k] == sep);
            }
        }
        lemma_split_append_plain(s, w0, sep);
        assert((s + w).drop_last() =~= s + w0);
        assert((s + w).last() == w.last());
        assert(w.last() != sep) by {
            assert(w[w.len() - 1] == w.last());
        }
        lemma_split_nonempty(s + w0, sep);
        let base = split(s, sep);
        let rest = split(s + w0, sep);
        assert(rest == base.update(base.len() - 1, base.last() + w0));
        assert(rest.len() == base.len());
        assert(rest.last() == base.last() + w0);
        assert(split(s + w, sep) == rest.update(rest.len() - 1, rest.last().push(w.last())));
        assert((base.last() + w0).push(w.last()) =~= base.last() + w);
        assert(split(s + w, sep) =~= base.update(base.len() - 1, base.last() + w));
    }
}

/// Appending a separator starts a new, empty piece.
pub proof fn lemma_split_append_sep(s: Seq<char>, sep: char)
    ensures
        split(s.push(sep), sep) == split(s, sep).push(Seq::<char>::empty()),
{
    assert(s.push(sep).drop_last() =~= s);
}

} // verus!
