use vstd::prelude::*;
use crate::text::{chars_of, replace_char, famous_of, bosh_of};

verus! {

/// Why a corpus cannot be used.
#[derive(Debug, Clone, Copy, PartialEq, Eq, Structural)]
pub enum CorpusError {
    /// The corpus document cannot be parsed, or a category is absent or
    /// holds something other than strings.
    Load,
    /// A category holds no template.
    EmptyCategory,
    /// A template has no character besides its placeholders (or, for the
    /// `before` and `after` fragments, no character at all), so it could
    /// yield an empty fragment. Each generation step must lengthen the
    /// text, else generation could go on forever.
    HollowTemplate,
}

/// The four categories of sentence templates.
pub struct Corpus {
    /// Quote templates: `a` stands for a `before` fragment, `b` for an `after` one.
    pub famous: Vec<String>,
    pub before: Vec<String>,
    pub after: Vec<String>,
    /// Templates about the topic, which stands where `x` is.
    pub bosh: Vec<String>,
}

/// The characters of each string, in order.
pub open spec fn strings_view(v: Seq<String>) -> Seq<Seq<char>> {
    v.map_values(|s: String| s@)
}

/// `t` holds some character other than `p` and `q`.
pub open spec fn has_text_besides(t: Seq<char>, p: char, q: char) -> bool {
    exists|i: int| 0 <= i < t.len() && t[i] != p && t[i] != q
}

/// Every template of `ts` holds some character other than `p` and `q`.
pub open spec fn all_have_text_besides(ts: Seq<Seq<char>>, p: char, q: char) -> bool {
    forall|i: int| 0 <= i < ts.len() ==> has_text_besides(#[trigger] ts[i], p, q)
}

/// All four categories are non-empty.
pub open spec fn categories_filled(
    famous: Seq<Seq<char>>,
    before: Seq<Seq<char>>,
    after: Seq<Seq<char>>,
    bosh: Seq<Seq<char>>,
) -> bool {
    famous.len() > 0 && before.len() > 0 && after.len() > 0 && bosh.len() > 0
}

/// Every template yields a non-empty fragment, whatever is substituted into it.
pub open spec fn templates_solid(
    famous: Seq<Seq<char>>,
    before: Seq<Seq<char>>,
    after: Seq<Seq<char>>,
    bosh: Seq<Seq<char>>,
) -> bool {
    &&& all_have_text_besides(famous, 'a', 'b')
    &&& forall|i: int| 0 <= i < before.len() ==> (#[trigger] before[i]).len() > 0
    &&& forall|i: int| 0 <= i < after.len() ==> (#[trigger] after[i]).len() > 0
    &&& all_have_text_besides(bosh, 'x', 'x')
}

impl Corpus {
    pub open spec fn famous_view(&self) -> Seq<Seq<char>> {
        strings_view(self.famous@)
    }

    pub open spec fn before_view(&self) -> Seq<Seq<char>> {
        strings_view(self.before@)
    }

    pub open spec fn after_view(&self) -> Seq<Seq<char>> {
        strings_view(self.after@)
    }

    pub open spec fn bosh_view(&self) -> Seq<Seq<char>> {
        strings_view(self.bosh@)
    }

    /// Every category is non-empty and every template yields a non-empty fragment.
    pub open spec fn wf(&self) -> bool {
        &&& categories_filled(self.famous_view(), self.before_view(), self.after_view(), self.bosh_view())
        &&& templates_solid(self.famous_view(), self.before_view(), self.after_view(), self.bosh_view())
    }
}

/// Every character of `s` other than `c` survives the replacement.
pub proof fn lemma_replace_keeps(s: Seq<char>, c: char, r: Seq<char>, i: int)
    requires
        0 <= i < s.len(),
        s[i] != c,
    ensures
        exists|j: int| 0 <= j < replace_char(s, c, r).len() && replace_char(s, c, r)[j] == s[i],
    decreases s.len(),
{
    let out = replace_char(s, c, r);
    let head = replace_char(s.drop_last(), c, r);
    if i == s.len() - 1 {
        assert(out[head.len() as int] == s[i]);
    } else {
        lemma_replace_keeps(s.drop_last(), c, r, i);
        let j = choose|j: int| 0 <= j < head.len() && head[j] == s.drop_last()[i];
        assert(out[j] == s[i]);
    }
}

/// A famous-quote template with text besides `a` and `b` yields a non-empty fragment.
pub proof fn lemma_famous_nonempty(t: Seq<char>, before: Seq<char>, after: Seq<char>)
    requires
        has_text_besides(t, 'a', 'b'),
    ensures
        famous_of(t, before, after).len() > 0,
{
    let i = choose|i: int| 0 <= i < t.len() && t[i] != 'a' && t[i] != 'b';
    lemma_replace_keeps(t, 'a', before, i);
    let first = replace_char(t, 'a', before);
    let j = choose|j: int| 0 <= j < first.len() && first[j] == t[i];
    lemma_replace_keeps(first, 'b', after, j);
}

/// A bullshit template with text besides `x` yields a non-empty fragment.
pub proof fn lemma_bosh_nonempty(t: Seq<char>, topic: Seq<char>)
    requires
        has_text_besides(t, 'x', 'x'),
    ensures
        bosh_of(t, topic).len() > 0,
{
    let i = choose|i: int| 0 <= i < t.len() && t[i] != 'x';
    lemma_replace_keeps(t, 'x', topic, i);
}

/// Whether `t` holds a character other than `p` and `q`.
fn text_besides(t: &String, p: char, q: char) -> (r: bool)
    ensures
        r == has_text_besides(t@, p, q),
{
    let cs = chars_of(t.as_str());
    let mut i: usize = 0;
    while i < cs.len()
        invariant
            i <= cs@.len(),
            cs@ == t@,
            forall|k: int| 0 <= k < i ==> cs@[k] == p || cs@[k] == q,
        decreases cs@.len() - i,
    {
        if cs[i] != p && cs[i] != q {
            return true;
        }
        i = i + 1;
    }
    false
}

/// Whether every template of `ts` holds a character other than `p` and `q`.
fn all_text_besides(ts: &Vec<String>, p: char, q: char) -> (r: bool)
    ensures
        r == all_have_text_besides(strings_view(ts@), p, q),
{
    let mut i: usize = 0;
    while i < ts.len()
        invariant
            i <= ts@.len(),
            forall|k: int| 0 <= k < i ==> has_text_besides(#[trigger] ts@[k]@, p, q),
        decreases ts@.len() - i,
    {
        if !text_besides(&ts[i], p, q) {
            assert(!has_text_besides(strings_view(ts@)[i as int], p, q));
            return false;
        }
        i = i + 1;
    }
    assert forall|k: int| 0 <= k < strings_view(ts@).len() implies has_text_besides(
        #[trigger] strings_view(ts@)[k],
        p,
        q,
    ) by {
        assert(strings_view(ts@)[k] == ts@[k]@);
    }
    true
}

/// Whether every string of `ts` is non-empty.
fn all_non_empty(ts: &Vec<String>) -> (r: bool)
    ensures
        r == forall|i: int| 0 <= i < strings_view(ts@).len() ==> (#[trigger] strings_view(ts@)[i]).len() > 0,
{
    let mut i: usize = 0;
    while i < ts.len()
        invariant
            i <= ts@.len(),
            forall|k: int| 0 <= k < i ==> (#[trigger] ts@[k]@).len() > 0,
        decreases ts@.len() - i,
    {
        if ts[i].as_str().is_empty() {
            assert(strings_view(ts@)[i as int].len() == 0);
            return false;
        }
        i = i + 1;
    }
    assert forall|k: int| 0 <= k < strings_view(ts@).len() implies (
    #[trigger] strings_view(ts@)[k]).len() > 0 by {
        assert(strings_view(ts@)[k] == ts@[k]@);
    }
    true
}

impl Corpus {
    /// Builds a corpus from its four categories. Fails with `EmptyCategory`
    /// when a category holds no template, else with `HollowTemplate` when a
    /// template could yield an empty fragment.
    pub fn new(famous: Vec<String>, before: Vec<String>, after: Vec<String>, bosh: Vec<String>) -> (r:
        Result<Corpus, CorpusError>)
        ensures
            r is Ok <==> categories_filled(
                strings_view(famous@),
                strings_view(before@),
                strings_view(after@),
                strings_view(bosh@),
            ) && templates_solid(
                strings_view(famous@),
                strings_view(before@),
                strings_view(after@),
                strings_view(bosh@),
            ),
            r matches Ok(c) ==> c.wf() && c.famous@ == famous@ && c.before@ == before@
                && c.after@ == after@ && c.bosh@ == bosh@,
            r == Err::<Corpus, CorpusError>(CorpusError::EmptyCategory) <==> !categories_filled(
                strings_view(famous@),
                strings_view(before@),
                strings_view(after@),
                strings_view(bosh@),
            ),
            r == Err::<Corpus, CorpusError>(CorpusError::HollowTemplate) <==> categories_filled(
                strings_view(famous@),
                strings_view(before@),
                strings_view(after@),
                strings_view(bosh@),
            ) && !templates_solid(
                strings_view(famous@),
                strings_view(before@),
                strings_view(after@),
                strings_view(bosh@),
            ),
            r != Err::<Corpus, CorpusError>(CorpusError::Load),
    {
        if famous.len() == 0 || before.len() == 0 || after.len() == 0 || bosh.len() == 0 {
            return Err(CorpusError::EmptyCategory);
        }
        if !all_text_besides(&famous, 'a', 'b') || !all_non_empty(&before) || !all_non_empty(&after)
            || !all_text_besides(&bosh, 'x', 'x') {
            return Err(CorpusError::HollowTemplate);
        }
        Ok(Corpus { famous, before, after, bosh })
    }
}

/// The corpus that generators are built with by default.
pub const BUILTIN_CORPUS: &'static str = "{\"famous\":[\"贝多芬a“卓越的人一大优点是：在不利与艰难的遭遇里百折不挠。”b\",\"培根a“知识就是力量。”b\",\"歌德a“读一本好书，就如同和一个高尚的人在交谈。”b\",\"鲁迅a“时间就像海绵里的水，只要愿挤，总还是有的。”b\",\"莎士比亚a“千万人的失败，都有是失败在做事不彻底。”b\",\"爱迪生a“天才是百分之一的灵感加百分之九十九的汗水。”b\",\"富兰克林a“你热爱生命吗？那么别浪费时间，因为时间是组成生命的材料。”b\",\"马克思a“一步实际行动比一打纲领更重要。”b\"],\"before\":[\"曾经说过：\",\"在不经意间这样说过：\",\"说过一句富有哲理的话：\",\"曾经提到过：\",\"说过一句著名的话：\",\"曾经说过这样一句话：\"],\"after\":[\"这不禁令我深思。\",\"带着这句话，我们还要更加慎重的审视这个问题：\",\"这启发了我。\",\"我希望诸位也能好好地体会这句话。\",\"这似乎解答了我的疑惑。\",\"这句话语虽然很短，但令我浮想联翩。\"],\"bosh\":[\"现在，解决x的问题，是非常非常重要的。所以，\",\"我们不得不面对一个非常尴尬的事实，那就是，\",\"x的发生，到底需要如何做到，不x的发生，又会如何产生。\",\"而这些并不是完全重要，更加重要的问题是，\",\"x，到底应该如何实现。\",\"带着这些问题，我们来审视一下x。\",\"所谓x，关键是x需要如何写。\",\"我们一般认为，抓住了问题的关键，其他一切则会迎刃而解。\",\"问题的关键究竟为何？\",\"x因何而发生？\",\"每个人都不得不面对这些问题。在面对这种问题时，\",\"一般来讲，我们都必须务必慎重的考虑考虑。\",\"要想清楚，x，到底是一种怎么样的存在。\",\"了解清楚x到底是一种怎么样的存在，是解决一切问题的关键。\",\"就我个人来说，x对我的意义，不能不说非常重大。\",\"既然如此，\",\"那么，\",\"这种事实对本人来说意义重大，相信对这个世界也是有一定意义的。\",\"我认为，\",\"经过上述讨论，\"]}";

/// The string array under `key` in the JSON document `text`; `None` when
/// the text does not parse, or the member is absent, not an array, or holds
/// something other than a string.
pub uninterp spec fn json_strings(text: Seq<char>, key: Seq<char>) -> Option<Seq<Seq<char>>>;

/// Relies on `json::parse`, indexing by `&str` and `JsonValue::as_str`: the
/// strings of the array under `key`, in order.
#[verifier::external_body]
fn json_string_array(text: &str, key: &str) -> (r: Option<Vec<String>>)
    ensures
        r is None <==> json_strings(text@, key@) is None,
        r matches Some(v) ==> json_strings(text@, key@) == Some(strings_view(v@)),
{
    match json::parse(text) {
        Ok(doc) => match &doc[key] {
            json::JsonValue::Array(items) => items.iter().map(|m| m.as_str().map(str::to_owned)).collect(),
            _ => None,
        },
        Err(_) => None,
    }
}

/// How reading a corpus from the JSON document `text` ends: `None` when it
/// succeeds, else the error.
pub open spec fn json_outcome(text: Seq<char>) -> Option<CorpusError> {
    let f = json_strings(text, "famous"@);
    let b = json_strings(text, "before"@);
    let a = json_strings(text, "after"@);
    let x = json_strings(text, "bosh"@);
    if f is None || b is None || a is None || x is None {
        Some(CorpusError::Load)
    } else if !categories_filled(f->0, b->0, a->0, x->0) {
        Some(CorpusError::EmptyCategory)
    } else if !templates_solid(f->0, b->0, a->0, x->0) {
        Some(CorpusError::HollowTemplate)
    } else {
        None
    }
}

/// The corpus holds the four arrays of the JSON document `text`.
pub open spec fn reads_json(c: Corpus, text: Seq<char>) -> bool {
    &&& Some(c.famous_view()) == json_strings(text, "famous"@)
    &&& Some(c.before_view()) == json_strings(text, "before"@)
    &&& Some(c.after_view()) == json_strings(text, "after"@)
    &&& Some(c.bosh_view()) == json_strings(text, "bosh"@)
}

impl Corpus {
    /// Reads a corpus from a JSON object with the string arrays `famous`,
    /// `before`, `after` and `bosh`.
    pub fn from_json(text: &str) -> (r: Result<Corpus, CorpusError>)
        ensures
            match r {
                Ok(c) => json_outcome(text@) is None && c.wf() && reads_json(c, text@),
                Err(e) => json_outcome(text@) == Some(e),
            },
    {
        let famous = json_string_array(text, "famous");
        let before = json_string_array(text, "before");
        let after = json_string_array(text, "after");
        let bosh = json_string_array(text, "bosh");
        match (famous, before, after, bosh) {
            (Some(f), Some(b), Some(a), Some(x)) => Corpus::new(f, b, a, x),
            _ => Err(CorpusError::Load),
        }
    }

    /// The corpus that ships with the library.
    pub fn builtin() -> (r: Result<Corpus, CorpusError>)
        ensures
            match r {
                Ok(c) => json_outcome(BUILTIN_CORPUS@) is None && c.wf() && reads_json(c, BUILTIN_CORPUS@),
                Err(e) => json_outcome(BUILTIN_CORPUS@) == Some(e),
            },
    {
        Corpus::from_json(BUILTIN_CORPUS)
    }
}

} // verus!
