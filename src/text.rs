use vstd::prelude::*;
use vstd::slice::{slice_subrange, slice_to_vec};
use vstd::std_specs::iter::IteratorSpec;

verus! {

/// Whether `c` has the Unicode `White_Space` property, as `char::is_whitespace` tests it.
pub open spec fn is_space(c: char) -> bool {
    let u = c as u32;
    u == 32 || (9 <= u && u <= 13) || u == 0x85 || u == 0xa0 || u == 0x1680 || (0x2000 <= u
        && u <= 0x200a) || u == 0x2028 || u == 0x2029 || u == 0x202f || u == 0x205f || u == 0x3000
}

/// The maximal runs of non-space characters of `s`, in order (what `split_whitespace` yields).
pub open spec fn fields(s: Seq<char>) -> Seq<Seq<char>>
    decreases s.len(),
{
    if s.len() == 0 {
        Seq::empty()
    } else {
        let pre = fields(s.drop_last());
        let c = s.last();
        if is_space(c) {
            pre
        } else if s.len() >= 2 && !is_space(s[s.len() - 2]) {
            pre.update(pre.len() - 1, pre.last().push(c))
        } else {
            pre.push(seq![c])
        }
    }
}

/// The `k`-th field of `s`, if there are more than `k`.
pub open spec fn nth_field(s: Seq<char>, k: int) -> Option<Seq<char>> {
    if 0 <= k < fields(s).len() {
        Some(fields(s)[k])
    } else {
        None
    }
}

/// The views of a sequence of character vectors.
pub open spec fn views(v: Seq<Vec<char>>) -> Seq<Seq<char>> {
    v.map_values(|t: Vec<char>| t@)
}

/// Whether `s` begins with `p`.
pub open spec fn starts_with(s: Seq<char>, p: Seq<char>) -> bool {
    p.len() <= s.len() && s.subrange(0, p.len() as int) == p
}

/// `l` without one final carriage return.
pub open spec fn strip_cr(l: Seq<char>) -> Seq<char> {
    if l.len() > 0 && l.last() == '\r' {
        l.drop_last()
    } else {
        l
    }
}

/// Index of the first `c` at or after `i`, or the length of `s` when there is none.
pub open spec fn index_from(s: Seq<char>, i: int, c: char) -> int
    decreases s.len() - i,
{
    if i < 0 || i >= s.len() {
        s.len() as int
    } else if s[i] == c {
        i
    } else {
        index_from(s, i + 1, c)
    }
}

/// Index of the first line feed at or after `i`, or the length of `s` when there is none.
pub open spec fn line_end(s: Seq<char>, i: int) -> int {
    index_from(s, i, '\n')
}

/// The line that starts at `i`.
pub open spec fn line_at(s: Seq<char>, i: int) -> Seq<char> {
    strip_cr(s.subrange(i, line_end(s, i)))
}

/// The second field of `line`, or the empty sequence when it has fewer than two.
pub open spec fn second_field(line: Seq<char>) -> Seq<char> {
    if fields(line).len() > 1 {
        fields(line)[1]
    } else {
        Seq::empty()
    }
}

/// Looks for the first line at or after `i` that starts with `key`: its second field, or empty.
pub open spec fn search_from(s: Seq<char>, i: int, key: Seq<char>) -> Seq<char>
    decreases s.len() - i,
    when 0 <= i <= s.len()
    via search_from_decreases
{
    let e = line_end(s, i);
    if starts_with(line_at(s, i), key) {
        second_field(line_at(s, i))
    } else if e >= s.len() {
        Seq::empty()
    } else {
        search_from(s, e + 1, key)
    }
}

#[via_fn]
proof fn search_from_decreases(s: Seq<char>, i: int, key: Seq<char>) {
    lemma_line_end_bounds(s, i);
}

/// The value that follows `key` in a line-oriented key/value text: the second field of the
/// first line that starts with `key`, or the empty sequence.
pub open spec fn search_line(content: Seq<char>, key: Seq<char>) -> Seq<char> {
    search_from(content, 0, key)
}

pub proof fn lemma_line_end_bounds(s: Seq<char>, i: int)
    requires
        0 <= i <= s.len(),
    ensures
        i <= line_end(s, i) <= s.len(),
{
    lemma_index_from_bounds(s, i, '\n');
}

pub proof fn lemma_index_from_bounds(s: Seq<char>, i: int, c: char)
    requires
        0 <= i <= s.len(),
    ensures
        i <= index_from(s, i, c) <= s.len(),
        index_from(s, i, c) < s.len() ==> s[index_from(s, i, c)] == c,
        forall|j: int| i <= j < index_from(s, i, c) ==> s[j] != c,
    decreases s.len() - i,
{
    if i < s.len() && s[i] != c {
        lemma_index_from_bounds(s, i + 1, c);
    }
}

/// Appends `c` to `s`.
/// Relies on `String::push`, which adds one character at the end.
#[verifier::external_body]
pub(crate) fn push_char(s: &mut String, c: char)
    ensures
        final(s)@ == old(s)@.push(c),
{
    s.push(c)
}

/// The characters of `s`, in order.
pub fn chars_of(s: &str) -> (r: Vec<char>)
    ensures
        r@ == s@,
{
    let mut out: Vec<char> = Vec::new();
    for c in it: s.chars()
        invariant
            out@ == it.seq().take(it.index() as int),
    {
        out.push(c);
    }
    out
}

/// A string holding the characters of `v`.
pub fn string_of(v: &Vec<char>) -> (r: String)
    ensures
        r@ == v@,
{
    let mut out = String::new();
    let mut i: usize = 0;
    while i < v.len()
        invariant
            i <= v.len(),
            out@ == v@.take(i as int),
        decreases v.len() - i,
    {
        push_char(&mut out, v[i]);
        assert(v@.take(i + 1) == v@.take(i as int).push(v@[i as int]));
        i += 1;
    }
    assert(v@.take(v.len() as int) == v@);
    out
}

/// The characters of `v` from `a` up to `b`.
pub fn copy_range(v: &Vec<char>, a: usize, b: usize) -> (r: Vec<char>)
    requires
        a <= b <= v.len(),
    ensures
        r@ == v@.subrange(a as int, b as int),
{
    slice_to_vec(slice_subrange(v.as_slice(), a, b))
}

/// Executable form of `is_space`.
pub fn char_is_space(c: char) -> (r: bool)
    ensures
        r == is_space(c),
{
    let u = c as u32;
    u == 32 || (9 <= u && u <= 13) || u == 0x85 || u == 0xa0 || u == 0x1680 || (0x2000 <= u
        && u <= 0x200a) || u == 0x2028 || u == 0x2029 || u == 0x202f || u == 0x205f || u == 0x3000
}

/// Splits `s` into its whitespace-separated fields.
pub fn split_fields(s: &Vec<char>) -> (r: Vec<Vec<char>>)
    ensures
        views(r@) == fields(s@),
{
    let mut toks: Vec<Vec<char>> = Vec::new();
    let mut cur: Vec<char> = Vec::new();
    let mut in_tok = false;
    let mut i: usize = 0;
    while i < s.len()
        invariant
            i <= s.len(),
            in_tok ==> i > 0 && !is_space(s@[i - 1]),
            !in_tok ==> cur@.len() == 0 && (i == 0 || is_space(s@[i - 1])),
            fields(s@.take(i as int)) == if in_tok {
                views(toks@).push(cur@)
            } else {
                views(toks@)
            },
        decreases s.len() - i,
    {
        let c = s[i];
        let ghost pre = s@.take(i as int);
        let ghost old_views = views(toks@);
        let ghost old_cur = cur@;
        assert(s@.take(i + 1).drop_last() == pre);
        assert(s@.take(i + 1).last() == c);
        if char_is_space(c) {
            if in_tok {
                toks.push(cur);
                assert(views(toks@) == old_views.push(old_cur));
                cur = Vec::new();
                in_tok = false;
            }
        } else {
            if in_tok {
                assert(views(toks@).push(old_cur).update(old_views.len() as int, old_cur.push(c))
                    == views(toks@).push(old_cur.push(c)));
            } else {
                assert(old_cur.push(c) == seq![c]);
            }
            cur.push(c);
            in_tok = true;
        }
        i += 1;
    }
    let ghost last_views = views(toks@);
    let ghost last_cur = cur@;
    if in_tok {
        toks.push(cur);
        assert(views(toks@) == last_views.push(last_cur));
    }
    assert(s@.take(s.len() as int) == s@);
    assert(views(toks@) == fields(s@));
    toks
}

/// Index of the first `c` in `s` at or after `i`, or the length of `s`.
pub fn find_from(s: &Vec<char>, i: usize, c: char) -> (e: usize)
    requires
        i <= s.len(),
    ensures
        e == index_from(s@, i as int, c),
{
    let mut j = i;
    while j < s.len() && s[j] != c
        invariant
            i <= j <= s.len(),
            index_from(s@, i as int, c) == index_from(s@, j as int, c),
        decreases s.len() - j,
    {
        j += 1;
    }
    j
}

/// Whether `s` begins with `p`.
pub fn has_prefix(s: &Vec<char>, p: &Vec<char>) -> (r: bool)
    ensures
        r == starts_with(s@, p@),
{
    if p.len() > s.len() {
        return false;
    }
    let mut i: usize = 0;
    while i < p.len()
        invariant
            p.len() <= s.len(),
            i <= p.len(),
            forall|j: int| 0 <= j < i ==> s@[j] == p@[j],
        decreases p.len() - i,
    {
        if s[i] != p[i] {
            assert(s@.subrange(0, p.len() as int)[i as int] != p@[i as int]);
            return false;
        }
        i += 1;
    }
    assert(s@.subrange(0, p.len() as int) == p@);
    true
}

/// The line of `s` that starts at `i`, without its line feed or a final carriage return.
fn line_from(s: &Vec<char>, i: usize, e: usize) -> (r: Vec<char>)
    requires
        i <= s.len(),
        e == line_end(s@, i as int),
    ensures
        r@ == line_at(s@, i as int),
{
    proof {
        lemma_line_end_bounds(s@, i as int);
    }
    let mut line = copy_range(s, i, e);
    if line.len() > 0 && line[line.len() - 1] == '\r' {
        line.pop();
    }
    line
}

/// The value that follows `search` in `content`: the second whitespace-separated field of the
/// first line that starts with `search`, or an empty string when that line has fewer than two
/// fields or no line starts with `search`.
pub fn process_search_line(content: &str, search: &str) -> (r: String)
    ensures
        r@ == search_line(content@, search@),
{
    let s = chars_of(content);
    let key = chars_of(search);
    let mut i: usize = 0;
    loop
        invariant
            i <= s.len(),
            search_from(s@, i as int, key@) == search_line(content@, search@),
        decreases s.len() - i,
    {
        let e = find_from(&s, i, '\n');
        proof {
            lemma_line_end_bounds(s@, i as int);
        }
        let line = line_from(&s, i, e);
        if has_prefix(&line, &key) {
            let parts = split_fields(&line);
            if parts.len() > 1 {
                assert(parts@[1]@ == views(parts@)[1]);
                return string_of(&parts[1]);
            }
            return String::new();
        }
        if e >= s.len() {
            return String::new();
        }
        i = e + 1;
    }
}

} // verus!
