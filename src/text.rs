use vstd::prelude::*;

verus! {

/// `s` with every occurrence of the character `c` replaced by `r`.
pub open spec fn replace_char(s: Seq<char>, c: char, r: Seq<char>) -> Seq<char>
    decreases s.len(),
{
    if s.len() == 0 {
        Seq::empty()
    } else {
        replace_char(s.drop_last(), c, r) + if s.last() == c {
            r
        } else {
            seq![s.last()]
        }
    }
}

/// A famous-quote template with `a` replaced by `before`, then `b` by `after`.
pub open spec fn famous_of(t: Seq<char>, before: Seq<char>, after: Seq<char>) -> Seq<char> {
    replace_char(replace_char(t, 'a', before), 'b', after)
}

/// A bullshit template with `x` replaced by the topic.
pub open spec fn bosh_of(t: Seq<char>, topic: Seq<char>) -> Seq<char> {
    replace_char(t, 'x', topic)
}

/// `part` stands in `s` at some offset.
pub open spec fn occurs_in(part: Seq<char>, s: Seq<char>) -> bool {
    exists|off: int| 0 <= off && off + part.len() <= s.len() && #[trigger] s.subrange(off, off + part.len()) == part
}

/// A character that the replacement does not bring in, and that is either
/// the one replaced or absent from the input, is absent from the output.
pub proof fn lemma_replace_absent(s: Seq<char>, c: char, r: Seq<char>, d: char)
    requires
        d == c || !s.contains(d),
        !r.contains(d),
    ensures
        !replace_char(s, c, r).contains(d),
    decreases s.len(),
{
    if s.len() > 0 {
        let head = s.drop_last();
        assert(d == c || !head.contains(d)) by {
            if d != c && head.contains(d) {
                let j = choose|j: int| 0 <= j < head.len() && head[j] == d;
                assert(s[j] == d);
            }
        }
        lemma_replace_absent(head, c, r, d);
        let out = replace_char(s, c, r);
        let hr = replace_char(head, c, r);
        let piece = if s.last() == c {
            r
        } else {
            seq![s.last()]
        };
        assert(out == hr + piece);
        if out.contains(d) {
            let j = choose|j: int| 0 <= j < out.len() && out[j] == d;
            if j < hr.len() {
                assert(hr[j] == d);
            } else {
                assert(piece[j - hr.len()] == d);
                if s.last() != c {
                    assert(s[s.len() - 1] == d);
                }
            }
        }
    }
}

/// Where `c` stands in `s`, the replacement stands in the output.
pub proof fn lemma_replace_occurs(s: Seq<char>, c: char, r: Seq<char>, i: int)
    requires
        0 <= i < s.len(),
        s[i] == c,
    ensures
        occurs_in(r, replace_char(s, c, r)),
    decreases s.len(),
{
    let head = s.drop_last();
    let hr = replace_char(head, c, r);
    let out = replace_char(s, c, r);
    if i == s.len() - 1 {
        assert(out.subrange(hr.len() as int, (hr.len() + r.len()) as int) =~= r);
    } else {
        lemma_replace_occurs(head, c, r, i);
        let off = choose|off: int|
            0 <= off && off + r.len() <= hr.len() && #[trigger] hr.subrange(off, off + r.len()) == r;
        assert(out.subrange(off, off + r.len()) =~= hr.subrange(off, off + r.len()));
    }
}

/// A bullshit fragment keeps no `x` when the topic has none, and holds the
/// topic when its template has an `x`.
pub proof fn lemma_bosh_substituted(t: Seq<char>, topic: Seq<char>)
    ensures
        !topic.contains('x') ==> !bosh_of(t, topic).contains('x'),
        t.contains('x') ==> occurs_in(topic, bosh_of(t, topic)),
{
    if !topic.contains('x') {
        lemma_replace_absent(t, 'x', topic, 'x');
    }
    if t.contains('x') {
        let i = choose|i: int| 0 <= i < t.len() && t[i] == 'x';
        lemma_replace_occurs(t, 'x', topic, i);
    }
}

/// A famous-quote fragment keeps no `a` or `b` when neither fragment
/// brings one in (a `b` of the `before` fragment is itself replaced).
pub proof fn lemma_famous_substituted(t: Seq<char>, before: Seq<char>, after: Seq<char>)
    requires
        !before.contains('a'),
        !after.contains('a'),
        !after.contains('b'),
    ensures
        !famous_of(t, before, after).contains('a'),
        !famous_of(t, before, after).contains('b'),
{
    lemma_replace_absent(t, 'a', before, 'a');
    let first = replace_char(t, 'a', before);
    lemma_replace_absent(first, 'b', after, 'a');
    lemma_replace_absent(first, 'b', after, 'b');
}

/// Relies on `str::chars` collected into a `Vec`: the characters of `s` in order.
#[verifier::external_body]
pub(crate) fn chars_of(s: &str) -> (r: Vec<char>)
    ensures
        r@ == s@,
{
    s.chars().collect()
}

/// Relies on `String: FromIterator<char>`: the string made of the characters of `v`.
#[verifier::external_body]
pub(crate) fn string_of(v: &Vec<char>) -> (r: String)
    ensures
        r@ == v@,
{
    v.iter().collect()
}

/// Replaces every `c` in `s` by `r`.
pub fn replace_chars(s: &Vec<char>, c: char, r: &Vec<char>) -> (out: Vec<char>)
    ensures
        out@ == replace_char(s@, c, r@),
{
    let mut out: Vec<char> = Vec::new();
    let mut i: usize = 0;
    while i < s.len()
        invariant
            i <= s@.len(),
            out@ == replace_char(s@.subrange(0, i as int), c, r@),
        decreases s@.len() - i,
    {
        let ghost prefix = s@.subrange(0, i as int + 1);
        assert(prefix.drop_last() =~= s@.subrange(0, i as int));
        if s[i] == c {
            let mut j: usize = 0;
            let ghost start = out@;
            while j < r.len()
                invariant
                    j <= r@.len(),
                    out@ == start + r@.subrange(0, j as int),
                decreases r@.len() - j,
            {
                out.push(r[j]);
                j = j + 1;
                assert(out@ =~= start + r@.subrange(0, j as int));
            }
            assert(r@.subrange(0, j as int) =~= r@);
        } else {
            out.push(s[i]);
        }
        i = i + 1;
        assert(out@ =~= replace_char(prefix, c, r@));
    }
    assert(s@.subrange(0, i as int) =~= s@);
    out
}

/// Fills a famous-quote template: every `a` becomes `before`, then every `b`
/// becomes `after`.
pub fn fill_famous(template: &str, before: &str, after: &str) -> (r: String)
    ensures
        r@ == famous_of(template@, before@, after@),
{
    let t = chars_of(template);
    let b = chars_of(before);
    let a = chars_of(after);
    let first = replace_chars(&t, 'a', &b);
    let second = replace_chars(&first, 'b', &a);
    string_of(&second)
}

/// Fills a bullshit template: every `x` becomes the topic.
pub fn fill_bosh(template: &str, topic: &str) -> (r: String)
    ensures
        r@ == bosh_of(template@, topic@),
{
    let t = chars_of(template);
    let p = chars_of(topic);
    string_of(&replace_chars(&t, 'x', &p))
}

} // verus!
