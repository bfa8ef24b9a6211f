use vstd::prelude::*;
use crate::corpus::{
    Corpus, CorpusError, lemma_famous_nonempty, lemma_bosh_nonempty, json_outcome, reads_json,
    BUILTIN_CORPUS,
};
use crate::random::{choose_uniform, draw_below};
use crate::text::{
    chars_of, string_of, replace_chars, famous_of, bosh_of, occurs_in, lemma_bosh_substituted,
    lemma_famous_substituted,
};

verus! {

/// The full-width space that indents each paragraph.
pub const INDENT_SPACE: char = '\u{3000}';

/// The terminator placed at each paragraph break.
pub const FULL_STOP: char = '。';

/// No break is taken before a paragraph holds more characters than this, and
/// the last paragraph holds at least this many.
pub const MIN_PARAGRAPH: usize = 200;

/// Each step draws a number from `0..DRAW_RANGE`.
pub const DRAW_RANGE: u32 = 100;

/// Draws up to this one end a long enough paragraph.
pub const BREAK_MAX_DRAW: u32 = 5;

/// Otherwise, draws up to this one append a famous quote.
pub const FAMOUS_MAX_DRAW: u32 = 20;

/// What one step of generation does.
#[derive(Debug, Clone, Copy, PartialEq, Eq, Structural)]
pub enum Action {
    /// End the paragraph and start a new one.
    Break,
    /// Append a famous-quote fragment.
    Famous,
    /// Append a bullshit fragment about the topic.
    Bullshit,
}

/// The step taken for a draw: a break on a draw up to `BREAK_MAX_DRAW` once
/// the paragraph holds more than `MIN_PARAGRAPH` characters, else a quote on
/// a draw up to `FAMOUS_MAX_DRAW`, else bullshit.
pub open spec fn action_for(draw: int, paragraph_length: int) -> Action {
    if draw <= BREAK_MAX_DRAW && paragraph_length > MIN_PARAGRAPH {
        Action::Break
    } else if draw <= FAMOUS_MAX_DRAW {
        Action::Famous
    } else {
        Action::Bullshit
    }
}

/// Chooses the step for a draw.
pub fn decide(draw: u32, paragraph_length: usize) -> (r: Action)
    ensures
        r == action_for(draw as int, paragraph_length as int),
{
    if draw <= BREAK_MAX_DRAW && paragraph_length > MIN_PARAGRAPH {
        Action::Break
    } else if draw <= FAMOUS_MAX_DRAW {
        Action::Famous
    } else {
        Action::Bullshit
    }
}

/// `indent` full-width spaces stand in `t` from `start` on.
pub open spec fn indented_at(t: Seq<char>, start: int, indent: nat) -> bool {
    &&& 0 <= start
    &&& start + indent <= t.len()
    &&& forall|j: int| start <= j < start + indent ==> t[j] == INDENT_SPACE
}

/// A paragraph break at `p`: a full stop, the newline at `p`, then the indent.
pub open spec fn break_at(t: Seq<char>, p: int, indent: nat) -> bool {
    &&& 1 <= p < t.len()
    &&& t[p - 1] == FULL_STOP
    &&& t[p] == '\n'
    &&& indented_at(t, p + 1, indent)
}

/// The shape of generated text: it opens with the indent, holds a paragraph
/// break at each position of `breaks`, and `total` visible characters, the
/// last `paragraph` of them after the last break.
pub open spec fn laid_out(t: Seq<char>, indent: nat, total: nat, paragraph: nat, breaks: Seq<int>) -> bool {
    &&& paragraph <= total
    &&& t.len() == indent + total + breaks.len() * (indent + 1)
    &&& indented_at(t, 0, indent)
    &&& indent + paragraph <= t.len()
    &&& forall|k: int|
        0 <= k < breaks.len() ==> break_at(t, #[trigger] breaks[k], indent) && breaks[k] + 1 + indent
            + paragraph <= t.len()
}

/// `n` full-width spaces.
pub open spec fn spaces(n: nat) -> Seq<char> {
    Seq::new(n, |i: int| INDENT_SPACE)
}

/// The text that a run of steps builds, each step either a fragment
/// appended (`Some`) or a paragraph break (`None`): the text opens with the
/// indent, and a break drops the last character, then appends the full
/// stop, a newline and the indent.
pub open spec fn text_of(indent: nat, steps: Seq<Option<Seq<char>>>) -> Seq<char>
    decreases steps.len(),
{
    if steps.len() == 0 {
        spaces(indent)
    } else {
        let t = text_of(indent, steps.drop_last());
        match steps.last() {
            Some(f) => t + f,
            None => t.drop_last() + seq![FULL_STOP, '\n'] + spaces(indent),
        }
    }
}

/// The visible characters that a run of steps appends: the lengths of its
/// fragments.
pub open spec fn visible_of(steps: Seq<Option<Seq<char>>>) -> nat
    decreases steps.len(),
{
    if steps.len() == 0 {
        0
    } else {
        visible_of(steps.drop_last()) + match steps.last() {
            Some(f) => f.len(),
            None => 0,
        }
    }
}

/// The visible characters appended since the last break.
pub open spec fn paragraph_of(steps: Seq<Option<Seq<char>>>) -> nat
    decreases steps.len(),
{
    if steps.len() == 0 {
        0
    } else {
        match steps.last() {
            Some(f) => paragraph_of(steps.drop_last()) + f.len(),
            None => 0,
        }
    }
}

/// Generation goes on while the text is short of `len` visible characters or
/// its last paragraph is short of `MIN_PARAGRAPH`.
pub open spec fn keeps_going(steps: Seq<Option<Seq<char>>>, len: nat) -> bool {
    visible_of(steps) < len || paragraph_of(steps) < MIN_PARAGRAPH
}

/// The step that a draw asks for, after a paragraph of `paragraph` visible
/// characters: a break, a non-empty famous-quote fragment, or a non-empty
/// bullshit fragment about `topic`.
pub open spec fn step_follows(
    c: Corpus,
    topic: Seq<char>,
    draw: u32,
    paragraph: nat,
    step: Option<Seq<char>>,
) -> bool {
    match action_for(draw as int, paragraph as int) {
        Action::Break => step is None,
        Action::Famous => step matches Some(f) && f.len() > 0 && is_famous_fragment(c, f),
        Action::Bullshit => step matches Some(f) && f.len() > 0 && is_bosh_fragment(c, topic, f),
    }
}

/// Each step was taken while generation was to go on, on a draw from
/// `0..DRAW_RANGE`, and is the step that draw asks for.
pub open spec fn paced(
    c: Corpus,
    topic: Seq<char>,
    len: nat,
    steps: Seq<Option<Seq<char>>>,
    draws: Seq<u32>,
) -> bool {
    &&& draws.len() == steps.len()
    &&& forall|i: int| 0 <= i < steps.len() ==> #[trigger] paced_at(c, topic, len, steps, draws, i)
}

/// Step `i` was taken while generation was to go on, on a draw from
/// `0..DRAW_RANGE`, and is the step that draw asks for.
pub open spec fn paced_at(
    c: Corpus,
    topic: Seq<char>,
    len: nat,
    steps: Seq<Option<Seq<char>>>,
    draws: Seq<u32>,
    i: int,
) -> bool {
    &&& keeps_going(steps.take(i), len)
    &&& draws[i] < DRAW_RANGE
    &&& step_follows(c, topic, draws[i], paragraph_of(steps.take(i)), steps[i])
}

/// A step that the next draw asks for, taken while generation is to go on,
/// extends a paced run.
proof fn lemma_paced_push(
    c: Corpus,
    topic: Seq<char>,
    len: nat,
    steps: Seq<Option<Seq<char>>>,
    draws: Seq<u32>,
    draw: u32,
    step: Option<Seq<char>>,
)
    requires
        paced(c, topic, len, steps, draws),
        keeps_going(steps, len),
        draw < DRAW_RANGE,
        step_follows(c, topic, draw, paragraph_of(steps), step),
    ensures
        paced(c, topic, len, steps.push(step), draws.push(draw)),
{
    let after = steps.push(step);
    let ds = draws.push(draw);
    assert forall|i: int| 0 <= i < after.len() implies #[trigger] paced_at(c, topic, len, after, ds, i) by {
        if i < steps.len() {
            assert(paced_at(c, topic, len, steps, draws, i));
            assert(after.take(i) =~= steps.take(i));
            assert(after[i] == steps[i]);
            assert(ds[i] == draws[i]);
        } else {
            assert(after.take(i) =~= steps);
            assert(after[i] == step);
            assert(ds[i] == draw);
        }
    }
    assert(ds.len() == after.len());
}

/// Text being generated, with its running counts.
struct Draft {
    text: Vec<char>,
    total_length: usize,
    paragraph_length: usize,
    breaks: Ghost<Seq<int>>,
    steps: Ghost<Seq<Option<Seq<char>>>>,
}

impl Draft {
    spec fn wf(&self, indent: nat) -> bool {
        &&& self.text@ == text_of(indent, self.steps@)
        &&& self.total_length == visible_of(self.steps@)
        &&& self.paragraph_length == paragraph_of(self.steps@)
        &&& laid_out(
            self.text@,
            indent,
            self.total_length as nat,
            self.paragraph_length as nat,
            self.breaks@,
        )
    }

    /// Pushes `indent` full-width spaces.
    fn push_indent(&mut self, indent: usize)
        ensures
            final(self).text@.len() == old(self).text@.len() + indent,
            final(self).text@.subrange(0, old(self).text@.len() as int) == old(self).text@,
            indented_at(final(self).text@, old(self).text@.len() as int, indent as nat),
            final(self).total_length == old(self).total_length,
            final(self).paragraph_length == old(self).paragraph_length,
            final(self).text@ == old(self).text@ + spaces(indent as nat),
            final(self).breaks == old(self).breaks,
            final(self).steps == old(self).steps,
    {
        let ghost start = self.text@;
        let mut i: usize = 0;
        while i < indent
            invariant
                i <= indent,
                self.text@.len() == start.len() + i,
                self.text@.subrange(0, start.len() as int) == start,
                forall|j: int| start.len() <= j < start.len() + i ==> self.text@[j] == INDENT_SPACE,
                self.total_length == old(self).total_length,
                self.paragraph_length == old(self).paragraph_length,
                self.breaks == old(self).breaks,
                self.steps == old(self).steps,
            decreases indent - i,
        {
            self.text.push(INDENT_SPACE);
            i = i + 1;
            assert(self.text@.subrange(0, start.len() as int) =~= start);
        }
        assert(self.text@ =~= start + spaces(indent as nat));
    }

    fn start(indent: usize) -> (r: Draft)
        ensures
            r.wf(indent as nat),
            r.total_length == 0,
            r.paragraph_length == 0,
            r.steps@ == Seq::<Option<Seq<char>>>::empty(),
    {
        let mut d = Draft { text: Vec::new(), total_length: 0, paragraph_length: 0, breaks: Ghost(Seq::empty()),
            steps: Ghost(Seq::empty()),
        };
        d.push_indent(indent);
        d
    }

    /// Appends a fragment and counts its characters.
    fn append_text(&mut self, indent: Ghost<nat>, fragment: &Vec<char>)
        requires
            old(self).wf(indent@),
        ensures
            final(self).wf(indent@),
            final(self).text@ == old(self).text@ + fragment@,
            final(self).total_length == old(self).total_length + fragment@.len(),
            final(self).paragraph_length == old(self).paragraph_length + fragment@.len(),
            final(self).breaks == old(self).breaks,
            final(self).steps@ == old(self).steps@.push(Some(fragment@)),
    {
        let ghost start = self.text@;
        let mut i: usize = 0;
        while i < fragment.len()
            invariant
                i <= fragment@.len(),
                self.text@ == start + fragment@.subrange(0, i as int),
                self.total_length == old(self).total_length,
                self.paragraph_length == old(self).paragraph_length,
                self.breaks == old(self).breaks,
                self.steps == old(self).steps,
            decreases fragment@.len() - i,
        {
            self.text.push(fragment[i]);
            i = i + 1;
            assert(self.text@ =~= start + fragment@.subrange(0, i as int));
        }
        assert(fragment@.subrange(0, i as int) =~= fragment@);
        let n = self.text.len();
        assert(n == old(self).text@.len() + fragment@.len());
        self.total_length = self.total_length + i;
        self.paragraph_length = self.paragraph_length + i;
        assert forall|j: int| 0 <= j < old(self).text@.len() implies self.text@[j] == old(self).text@[j] by {}
        let ghost st = self.steps@;
        self.steps = Ghost(st.push(Some(fragment@)));
        assert(self.steps@.drop_last() =~= st);
    }

    /// Ends the paragraph: drops the last character, then appends the full
    /// stop, a newline and the indent. The paragraph must hold a character,
    /// so that the one dropped is never part of an earlier break or of the
    /// opening indent; generation only breaks after more than
    /// `MIN_PARAGRAPH` characters.
    fn new_line(&mut self, indent: usize)
        requires
            old(self).wf(indent as nat),
            old(self).paragraph_length > 0,
        ensures
            final(self).wf(indent as nat),
            final(self).text@.len() == old(self).text@.len() + 1 + indent,
            final(self).total_length == old(self).total_length,
            final(self).paragraph_length == 0,
            final(self).steps@ == old(self).steps@.push(None),
            forall|j: int| 0 <= j < old(self).text@.len() - 1 ==> final(self).text@[j] == old(self).text@[j],
    {
        let ghost old_text = self.text@;
        let ghost p = old_text.len() as int;
        let ghost old_para = self.paragraph_length as int;
        self.text.pop();
        self.text.push(FULL_STOP);
        self.text.push('\n');
        let ghost mid = self.text@;
        assert(mid =~= old_text.drop_last().push(FULL_STOP).push('\n'));
        self.push_indent(indent);
        self.paragraph_length = 0;
        let ghost bs = self.breaks@;
        self.breaks = Ghost(bs.push(p));
        let ghost st = self.steps@;
        self.steps = Ghost(st.push(None));
        assert(self.steps@.drop_last() =~= st);
        assert(mid + spaces(indent as nat) =~= old_text.drop_last() + seq![FULL_STOP, '\n'] + spaces(indent as nat));
        let ghost t = self.text@;
        assert forall|j: int| 0 <= j < p + 1 implies t[j] == mid[j] by {
            assert(t.subrange(0, p + 1)[j] == t[j]);
        }
        assert forall|j: int| 0 <= j < p - 1 implies t[j] == old_text[j] by {
            assert(t[j] == mid[j]);
        }
        let ghost n = bs.len();
        assert((n + 1) * (indent + 1) == n * (indent + 1) + indent + 1) by (nonlinear_arith);
        assert forall|k: int| 0 <= k < self.breaks@.len() implies break_at(
            t,
            #[trigger] self.breaks@[k],
            indent as nat,
        ) && self.breaks@[k] + 1 + indent + 0 <= t.len() by {
            if k < n {
                let b = bs[k];
                assert(self.breaks@[k] == b);
                assert(break_at(old_text, b, indent as nat));
                assert(b + 1 + indent + old_para <= p);
                assert(t[b - 1] == old_text[b - 1]);
                assert(t[b] == old_text[b]);
                assert forall|j: int| b + 1 <= j < b + 1 + indent implies t[j] == INDENT_SPACE by {
                    assert(t[j] == old_text[j]);
                }
            } else {
                assert(self.breaks@[k] == p);
                assert(t[p - 1] == mid[p - 1]);
                assert(t[p] == mid[p]);
            }
        }
        assert forall|j: int| 0 <= j < indent implies t[j] == INDENT_SPACE by {
            assert(t[j] == old_text[j]);
        }
    }
}

impl Draft {
    /// Ends the text: drops the last character and closes with a full stop,
    /// which is what a final paragraph break leaves once its trailing newline
    /// and indent are trimmed.
    fn finish(self, indent: Ghost<nat>) -> (r: String)
        requires
            self.wf(indent@),
            self.paragraph_length > 0,
        ensures
            r@ == self.text@.drop_last().push(FULL_STOP),
    {
        let mut text = self.text;
        text.pop();
        text.push(FULL_STOP);
        string_of(&text)
    }
}

/// `f` is a famous-quote fragment that the corpus can yield.
pub open spec fn is_famous_fragment(c: Corpus, f: Seq<char>) -> bool {
    exists|i: int, j: int, k: int|
        0 <= i < c.famous_view().len() && 0 <= j < c.before_view().len() && 0 <= k
            < c.after_view().len() && f == famous_of(
            c.famous_view()[i],
            c.before_view()[j],
            c.after_view()[k],
        )
}

/// `f` is a bullshit fragment about `topic` that the corpus can yield.
pub open spec fn is_bosh_fragment(c: Corpus, topic: Seq<char>, f: Seq<char>) -> bool {
    exists|i: int| 0 <= i < c.bosh_view().len() && f == bosh_of(c.bosh_view()[i], topic)
}

/// Generates filler text about a topic from a corpus of templates.
pub struct BullshitGenerator {
    corpus: Corpus,
    indent: usize,
}

impl BullshitGenerator {
    pub closed spec fn corpus(&self) -> Corpus {
        self.corpus
    }

    /// The number of full-width spaces that open each paragraph.
    pub closed spec fn indent(&self) -> nat {
        self.indent as nat
    }

    pub closed spec fn wf(&self) -> bool {
        self.corpus.wf()
    }

    /// A generator over the given corpus.
    pub fn from_corpus(corpus: Corpus, indent: usize) -> (r: Self)
        requires
            corpus.wf(),
        ensures
            r.wf(),
            r.corpus() == corpus,
            r.indent() == indent,
    {
        BullshitGenerator { corpus, indent }
    }

    /// A generator over the built-in corpus, with no indent: the same as
    /// `with_indent(0)`.
    pub fn new() -> (r: Result<Self, CorpusError>)
        ensures
            match r {
                Ok(g) => json_outcome(BUILTIN_CORPUS@) is None && g.wf() && g.indent() == 0
                    && reads_json(g.corpus(), BUILTIN_CORPUS@),
                Err(e) => json_outcome(BUILTIN_CORPUS@) == Some(e),
            },
    {
        BullshitGenerator::with_indent(0)
    }

    /// A generator over the built-in corpus whose paragraphs open with
    /// `indent` full-width spaces.
    pub fn with_indent(indent: usize) -> (r: Result<Self, CorpusError>)
        ensures
            match r {
                Ok(g) => json_outcome(BUILTIN_CORPUS@) is None && g.wf() && g.indent() == indent
                    && reads_json(g.corpus(), BUILTIN_CORPUS@),
                Err(e) => json_outcome(BUILTIN_CORPUS@) == Some(e),
            },
    {
        let corpus = Corpus::builtin()?;
        Ok(BullshitGenerator { corpus, indent })
    }

    fn famous_chars(&self) -> (r: Vec<char>)
        requires
            self.wf(),
        ensures
            is_famous_fragment(self.corpus, r@),
            r@.len() > 0,
    {
        let c = &self.corpus;
        let t = choose_uniform(&c.famous);
        let b = choose_uniform(&c.before);
        let a = choose_uniform(&c.after);
        match (t, b, a) {
            (Ok(t), Ok(b), Ok(a)) => {
                let ghost i = choose|i: int| 0 <= i < c.famous@.len() && t@ == c.famous@[i]@;
                let ghost j = choose|j: int| 0 <= j < c.before@.len() && b@ == c.before@[j]@;
                let ghost k = choose|k: int| 0 <= k < c.after@.len() && a@ == c.after@[k]@;
                let tc = chars_of(t.as_str());
                let bc = chars_of(b.as_str());
                let ac = chars_of(a.as_str());
                let first = replace_chars(&tc, 'a', &bc);
                let r = replace_chars(&first, 'b', &ac);
                proof {
                    assert(c.famous_view()[i] == t@);
                    assert(c.before_view()[j] == b@);
                    assert(c.after_view()[k] == a@);
                    lemma_famous_nonempty(t@, b@, a@);
                }
                r
            },
            _ => {
                // a well-formed corpus has no empty category
                proof {
                    assert(false);
                }
                Vec::new()
            },
        }
    }

    fn bosh_chars(&self, topic: &Vec<char>) -> (r: Vec<char>)
        requires
            self.wf(),
        ensures
            is_bosh_fragment(self.corpus, topic@, r@),
            r@.len() > 0,
    {
        let c = &self.corpus;
        match choose_uniform(&c.bosh) {
            Ok(t) => {
                let ghost i = choose|i: int| 0 <= i < c.bosh@.len() && t@ == c.bosh@[i]@;
                let tc = chars_of(t.as_str());
                let r = replace_chars(&tc, 'x', topic);
                proof {
                    assert(c.bosh_view()[i] == t@);
                    lemma_bosh_nonempty(t@, topic@);
                }
                r
            },
            Err(_) => {
                // a well-formed corpus has no empty category
                proof {
                    assert(false);
                }
                Vec::new()
            },
        }
    }

    /// A single famous-quote fragment: a random quote template whose `a` and
    /// `b` are filled with a random `before` and a random `after` fragment.
    pub fn get_famous(&self) -> (r: String)
        requires
            self.wf(),
        ensures
            is_famous_fragment(self.corpus(), r@),
    {
        string_of(&self.famous_chars())
    }

    /// A single bullshit fragment: a random template with `x` filled with the topic.
    pub fn get_bullshit(&self, topic: &str) -> (r: String)
        requires
            self.wf(),
        ensures
            is_bosh_fragment(self.corpus(), topic@, r@),
    {
        let tc = chars_of(topic);
        string_of(&self.bosh_chars(&tc))
    }

    /// Generates text about `topic` of about `len` visible characters.
    pub fn generate(self, topic: &str, len: usize) -> (r: String)
        requires
            self.wf(),
        ensures
            indented_at(r@, 0, self.indent()),
            r@.len() > self.indent(),
            r@.last() == FULL_STOP,
            exists|steps: Seq<Option<Seq<char>>>, draws: Seq<u32>|
                {
                    &&& paced(self.corpus(), topic@, len as nat, steps, draws)
                    &&& !keeps_going(steps, len as nat)
                    &&& len <= visible_of(steps) <= len + paragraph_of(steps)
                    &&& r@ == text_of(self.indent(), steps).drop_last().push(FULL_STOP)
                    &&& steps[0] matches Some(f) && r@[self.indent() as int] == f[0]
                    &&& exists|breaks: Seq<int>|
                        laid_out(r@, self.indent(), visible_of(steps), paragraph_of(steps), breaks)
                },
    {
        let indent = self.indent;
        let topic_chars = chars_of(topic);
        let mut d = Draft::start(indent);
        let ghost mut draws: Seq<u32> = Seq::empty();
        while d.total_length < len || d.paragraph_length < MIN_PARAGRAPH
            invariant
                self.wf(),
                indent == self.indent,
                d.wf(indent as nat),
                d.total_length - d.paragraph_length <= len,
                topic_chars@ == topic@,
                paced(self.corpus, topic@, len as nat, d.steps@, draws),
                d.steps@.len() > 0 ==> (d.steps@[0] matches Some(f) && f.len() > 0 && d.text@.len() > indent
                    && d.text@[indent as int] == f[0]),
            decreases 2 * (usize::MAX - d.total_length) + if d.paragraph_length > MIN_PARAGRAPH {
                1int
            } else {
                0int
            },
        {
            let draw = draw_below(DRAW_RANGE);
            let ghost before = d.steps@;
            let ghost draws_before = draws;
            proof {
                draws = draws.push(draw);
            }
            match decide(draw, d.paragraph_length) {
                Action::Break => d.new_line(indent),
                Action::Famous => {
                    let f = self.famous_chars();
                    d.append_text(Ghost(indent as nat), &f);
                },
                Action::Bullshit => {
                    let f = self.bosh_chars(&topic_chars);
                    d.append_text(Ghost(indent as nat), &f);
                },
            }
            proof {
                let after = d.steps@;
                assert(after =~= before.push(after.last()));
                assert(step_follows(self.corpus, topic@, draw, paragraph_of(before), after.last()));
                lemma_paced_push(self.corpus, topic@, len as nat, before, draws_before, draw, after.last());
                if before.len() == 0 {
                    assert(after[0] == after.last());
                    assert(d.text@ == text_of(indent as nat, before) + after.last()->0);
                }
            }
        }
        let ghost t = d.text@;
        let ghost total = d.total_length as nat;
        let ghost paragraph = d.paragraph_length as nat;
        let ghost breaks = d.breaks@;
        let ghost steps = d.steps@;
        let r = d.finish(Ghost(indent as nat));
        proof {
            let rr = r@;
            assert forall|j: int| 0 <= j < t.len() - 1 implies rr[j] == t[j] by {}
            assert forall|k: int| 0 <= k < breaks.len() implies break_at(
                rr,
                #[trigger] breaks[k],
                indent as nat,
            ) && breaks[k] + 1 + indent + paragraph <= rr.len() by {
                let b = breaks[k];
                assert(break_at(t, b, indent as nat));
                assert(rr[b - 1] == t[b - 1]);
                assert(rr[b] == t[b]);
                assert forall|j: int| b + 1 <= j < b + 1 + indent implies rr[j] == INDENT_SPACE by {
                    assert(rr[j] == t[j]);
                }
            }
            assert forall|j: int| 0 <= j < indent implies rr[j] == INDENT_SPACE by {
                assert(rr[j] == t[j]);
            }
            assert(laid_out(rr, indent as nat, total, paragraph, breaks));
            assert(laid_out(rr, self.indent(), visible_of(steps), paragraph_of(steps), breaks));
            assert(!keeps_going(steps, len as nat));
            assert(paced(self.corpus(), topic@, len as nat, steps, draws));
            assert(rr == text_of(self.indent(), steps).drop_last().push(FULL_STOP));
        }
        r
    }
}

/// A bullshit fragment keeps no `x` when the topic has none, and holds the
/// topic verbatim when the template it came from has an `x`.
pub proof fn lemma_bullshit_complete(g: BullshitGenerator, topic: Seq<char>, r: Seq<char>)
    requires
        g.wf(),
        is_bosh_fragment(g.corpus(), topic, r),
    ensures
        !topic.contains('x') ==> !r.contains('x'),
        exists|i: int|
            0 <= i < g.corpus().bosh_view().len() && r == bosh_of(g.corpus().bosh_view()[i], topic)
                && (g.corpus().bosh_view()[i].contains('x') ==> occurs_in(topic, r)),
{
    let i = choose|i: int|
        0 <= i < g.corpus().bosh_view().len() && r == bosh_of(g.corpus().bosh_view()[i], topic);
    lemma_bosh_substituted(g.corpus().bosh_view()[i], topic);
}

/// A famous-quote fragment shows no `a` or `b` placeholder, provided no
/// `before` fragment holds an `a` and no `after` fragment an `a` or a `b`.
pub proof fn lemma_famous_complete(g: BullshitGenerator, r: Seq<char>)
    requires
        g.wf(),
        is_famous_fragment(g.corpus(), r),
        forall|j: int|
            0 <= j < g.corpus().before_view().len() ==> !(#[trigger] g.corpus().before_view()[j]).contains('a'),
        forall|k: int|
            0 <= k < g.corpus().after_view().len() ==> !(#[trigger] g.corpus().after_view()[k]).contains('a')
                && !g.corpus().after_view()[k].contains('b'),
    ensures
        !r.contains('a'),
        !r.contains('b'),
{
    let c = g.corpus();
    let (i, j, k) = choose|i: int, j: int, k: int|
        0 <= i < c.famous_view().len() && 0 <= j < c.before_view().len() && 0 <= k
            < c.after_view().len() && r == famous_of(
            c.famous_view()[i],
            c.before_view()[j],
            c.after_view()[k],
        );
    lemma_famous_substituted(c.famous_view()[i], c.before_view()[j], c.after_view()[k]);
}

} // verus!
