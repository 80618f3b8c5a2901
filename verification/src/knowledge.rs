//! The knowledge block: the ordered fragments of context that one run of
//! the answering pipeline gathers, held to a budget of characters by
//! dropping whole fragments, the lowest-ranked first. The static domain
//! knowledge is put in front of it as a fragment of the highest rank, and
//! the context that is handed on is held to the same budget as a whole.

use vstd::prelude::*;
use vstd::string::*;

verus! {

/// One piece of context and the rank by which it competes for room.
#[derive(Debug, PartialEq)]
pub struct Fragment {
    pub rank: u64,
    pub text: String,
}

pub struct FragmentView {
    pub rank: u64,
    pub text: Seq<char>,
}

impl View for Fragment {
    type V = FragmentView;

    open spec fn view(&self) -> FragmentView {
        FragmentView { rank: self.rank, text: self.text@ }
    }
}

impl Clone for Fragment {
    fn clone(&self) -> (f: Fragment)
        ensures
            f@ == self@,
    {
        Fragment { rank: self.rank, text: self.text.clone() }
    }
}

pub open spec fn fragment_views(fs: Seq<Fragment>) -> Seq<FragmentView> {
    fs.map_values(|f: Fragment| f@)
}

/// The number of characters in all the fragments.
pub open spec fn total_len(fs: Seq<FragmentView>) -> nat
    decreases fs.len(),
{
    if fs.len() == 0 {
        0
    } else {
        total_len(fs.drop_last()) + fs.last().text.len()
    }
}

/// The fragments' texts, one after another.
pub open spec fn render(fs: Seq<FragmentView>) -> Seq<char>
    decreases fs.len(),
{
    if fs.len() == 0 {
        Seq::empty()
    } else {
        render(fs.drop_last()) + fs.last().text
    }
}

/// The index of the fragment that is dropped first: one of the lowest
/// rank, and of those the one appended last.
pub open spec fn weakest(fs: Seq<FragmentView>) -> int
    decreases fs.len(),
{
    if fs.len() <= 1 {
        0
    } else {
        let w = weakest(fs.drop_last());
        if fs.last().rank <= fs[w].rank {
            fs.len() - 1
        } else {
            w
        }
    }
}

/// The weakest fragment is one of the fragments, none ranks below it, and
/// those after it rank above it.
pub proof fn lemma_weakest(fs: Seq<FragmentView>)
    requires
        fs.len() > 0,
    ensures
        0 <= weakest(fs) < fs.len(),
        forall|i: int| 0 <= i < fs.len() ==> fs[weakest(fs)].rank <= (#[trigger] fs[i]).rank,
        forall|i: int| weakest(fs) < i < fs.len() ==> fs[weakest(fs)].rank < (#[trigger] fs[i]).rank,
    decreases fs.len(),
{
    if fs.len() > 1 {
        lemma_weakest(fs.drop_last());
        let w = weakest(fs.drop_last());
        assert(fs.drop_last()[w] == fs[w]);
        assert forall|i: int| 0 <= i < fs.len() implies fs[weakest(fs)].rank <= (
        #[trigger] fs[i]).rank by {
            if i < fs.len() - 1 {
                assert(fs.drop_last()[i] == fs[i]);
            }
        }
        assert forall|i: int| weakest(fs) < i < fs.len() implies fs[weakest(fs)].rank < (
        #[trigger] fs[i]).rank by {
            if i < fs.len() - 1 {
                assert(fs.drop_last()[i] == fs[i]);
            }
        }
    }
}

/// The fragments that are retained under a budget: all of them where they
/// fit, else what is retained of them without the weakest.
pub open spec fn fit(fs: Seq<FragmentView>, budget: nat) -> Seq<FragmentView>
    decreases fs.len(),
    via fit_terminates
{
    if total_len(fs) <= budget {
        fs
    } else {
        fit(fs.remove(weakest(fs)), budget)
    }
}

#[via_fn]
proof fn fit_terminates(fs: Seq<FragmentView>, budget: nat) {
    if total_len(fs) > budget {
        lemma_weakest(fs);
    }
}

/// `idx` says where in `whole` each element of `part` stands: at rising
/// indices, so that `part` is `whole` with some elements left out.
pub open spec fn embeds(part: Seq<FragmentView>, whole: Seq<FragmentView>, idx: Seq<int>) -> bool {
    &&& idx.len() == part.len()
    &&& forall|k: int|
        0 <= k < idx.len() ==> 0 <= #[trigger] idx[k] < whole.len() && part[k] == whole[idx[k]]
    &&& forall|a: int, b: int| 0 <= a < b < idx.len() ==> #[trigger] idx[a] < #[trigger] idx[b]
}

/// The characters of a rendering are those of its fragments.
pub proof fn lemma_render_len(fs: Seq<FragmentView>)
    ensures
        render(fs).len() == total_len(fs),
    decreases fs.len(),
{
    if fs.len() > 0 {
        lemma_render_len(fs.drop_last());
    }
}

/// Rendering two runs of fragments one after the other renders them as
/// one run.
pub proof fn lemma_render_concat(a: Seq<FragmentView>, b: Seq<FragmentView>)
    ensures
        render(a + b) == render(a) + render(b),
        total_len(a + b) == total_len(a) + total_len(b),
    decreases b.len(),
{
    if b.len() == 0 {
        assert(a + b =~= a);
        assert(render(a) + render(b) =~= render(a));
    } else {
        assert((a + b).drop_last() =~= a + b.drop_last());
        lemma_render_concat(a, b.drop_last());
        assert(render(a) + (render(b.drop_last()) + b.last().text) =~= (render(a) + render(
            b.drop_last(),
        )) + b.last().text);
    }
}

/// Assembly is associative: fragments appended in the same order give the
/// same block and the same text, however they are grouped.
pub proof fn lemma_assembly_associative(
    a: Seq<FragmentView>,
    b: Seq<FragmentView>,
    c: Seq<FragmentView>,
    budget: nat,
)
    ensures
        (a + b) + c == a + (b + c),
        render((a + b) + c) == render(a) + (render(b) + render(c)),
        render(a + (b + c)) == (render(a) + render(b)) + render(c),
        fit((a + b) + c, budget) == fit(a + (b + c), budget),
{
    assert((a + b) + c =~= a + (b + c));
    lemma_render_concat(a, b + c);
    lemma_render_concat(b, c);
    assert(render(a) + (render(b) + render(c)) =~= (render(a) + render(b)) + render(c));
}

/// Leaving one fragment out leaves its characters out.
pub proof fn lemma_total_len_remove(fs: Seq<FragmentView>, i: int)
    requires
        0 <= i < fs.len(),
    ensures
        total_len(fs.remove(i)) == total_len(fs) - fs[i].text.len(),
    decreases fs.len(),
{
    if i == fs.len() - 1 {
        assert(fs.remove(i) =~= fs.drop_last());
    } else {
        assert(fs.remove(i).drop_last() =~= fs.drop_last().remove(i));
        assert(fs.remove(i).last() == fs.last());
        lemma_total_len_remove(fs.drop_last(), i);
    }
}

/// The fragment at `j` gives way to the one at `i`: it ranks lower, or
/// they rank alike and it was appended later.
pub open spec fn yields_to(fs: Seq<FragmentView>, j: int, i: int) -> bool {
    fs[j].rank < fs[i].rank || (fs[j].rank == fs[i].rank && j > i)
}

/// What is retained never exceeds the budget, and is made of whole
/// fragments in their order: `fit` only leaves fragments out. A fragment
/// that is left out gives way to every one that is retained: it ranks no
/// higher, and where the ranks are equal it was appended later.
pub proof fn lemma_fit(fs: Seq<FragmentView>, budget: nat) -> (idx: Seq<int>)
    ensures
        total_len(fit(fs, budget)) <= budget,
        render(fit(fs, budget)).len() <= budget,
        total_len(fs) <= budget ==> fit(fs, budget) == fs,
        embeds(fit(fs, budget), fs, idx),
        forall|j: int, k: int|
            0 <= j < fs.len() && !idx.contains(j) && 0 <= k < idx.len() ==> yields_to(
                fs,
                j,
                #[trigger] idx[k],
            ) && (#[trigger] fs[j]).rank <= fs[idx[k]].rank,
    decreases fs.len(),
{
    lemma_render_len(fit(fs, budget));
    if total_len(fs) <= budget {
        let idx = Seq::new(fs.len(), |i: int| i);
        assert forall|j: int| 0 <= j < fs.len() implies idx.contains(j) by {
            assert(idx[j] == j);
        }
        idx
    } else {
        lemma_weakest(fs);
        let w = weakest(fs);
        let rest = fs.remove(w);
        let inner = lemma_fit(rest, budget);
        let idx = inner.map_values(
            |i: int|
                if i < w {
                    i
                } else {
                    i + 1
                },
        );
        assert forall|k: int| 0 <= k < idx.len() implies 0 <= #[trigger] idx[k] < fs.len() && fit(
            fs,
            budget,
        )[k] == fs[idx[k]] by {
            assert(0 <= inner[k] < rest.len());
        }
        assert forall|a: int, b: int| 0 <= a < b < idx.len() implies #[trigger] idx[a]
            < #[trigger] idx[b] by {
            assert(inner[a] < inner[b]);
        }
        assert forall|j: int, k: int|
            0 <= j < fs.len() && !idx.contains(j) && 0 <= k < idx.len() implies yields_to(
            fs,
            j,
            #[trigger] idx[k],
        ) && (#[trigger] fs[j]).rank <= fs[idx[k]].rank by {
            assert(0 <= inner[k] < rest.len());
            assert(rest[inner[k]] == fs[idx[k]]);
            if j != w {
                let j0 = if j < w {
                    j
                } else {
                    j - 1
                };
                assert(rest[j0] == fs[j]);
                if inner.contains(j0) {
                    let m = choose|m: int| 0 <= m < inner.len() && inner[m] == j0;
                    assert(idx[m] == j);
                }
                assert(yields_to(rest, j0, inner[k]));
            }
        }
        idx
    }
}

/// The knowledge gathered in one run: every fragment that was appended, in
/// order, and the budget of characters.
#[derive(Debug, Clone, PartialEq)]
pub struct KnowledgeBlock {
    fragments: Vec<Fragment>,
    budget: usize,
}

pub struct KnowledgeBlockView {
    pub fragments: Seq<FragmentView>,
    pub budget: nat,
}

impl View for KnowledgeBlock {
    type V = KnowledgeBlockView;

    closed spec fn view(&self) -> KnowledgeBlockView {
        KnowledgeBlockView {
            fragments: fragment_views(self.fragments@),
            budget: self.budget as nat,
        }
    }
}

impl KnowledgeBlockView {
    /// The fragments that the block retains.
    pub open spec fn retained(self) -> Seq<FragmentView> {
        fit(self.fragments, self.budget)
    }

    /// The text of the block: what it retains, rendered.
    pub open spec fn text(self) -> Seq<char> {
        render(self.retained())
    }
}

impl KnowledgeBlock {
    /// An empty block with the given budget of characters.
    pub fn new(budget: usize) -> (block: KnowledgeBlock)
        ensures
            block@ == (KnowledgeBlockView { fragments: Seq::empty(), budget: budget as nat }),
    {
        let block = KnowledgeBlock { fragments: Vec::new(), budget };
        assert(block@.fragments =~= Seq::empty());
        block
    }

    /// The budget of characters.
    pub fn budget(&self) -> (b: usize)
        ensures
            b == self@.budget,
    {
        self.budget
    }

    /// The number of fragments appended so far.
    pub fn len(&self) -> (n: usize)
        ensures
            n == self@.fragments.len(),
    {
        self.fragments.len()
    }

    /// Appends one fragment.
    pub fn push(&mut self, rank: u64, text: String)
        ensures
            final(self)@ == (KnowledgeBlockView {
                fragments: old(self)@.fragments.push(FragmentView { rank, text: text@ }),
                budget: old(self)@.budget,
            }),
    {
        let ghost before = self@.fragments;
        self.fragments.push(Fragment { rank, text });
        assert(self@.fragments =~= before.push(FragmentView { rank, text: text@ }));
    }

    /// Appends the given fragments in their order.
    pub fn extend(&mut self, more: Vec<Fragment>)
        ensures
            final(self)@ == (KnowledgeBlockView {
                fragments: old(self)@.fragments + fragment_views(more@),
                budget: old(self)@.budget,
            }),
    {
        let ghost before = self@.fragments;
        let ghost added = fragment_views(more@);
        let mut rest = more;
        self.fragments.append(&mut rest);
        assert(self@.fragments =~= before + added);
    }

    /// The fragments that the block retains: all of them where they fit
    /// the budget, else what is left when the weakest are dropped one by
    /// one until the rest fits.
    pub fn retained(&self) -> (kept: Vec<Fragment>)
        ensures
            fragment_views(kept@) == self@.retained(),
            total_len(fragment_views(kept@)) <= self@.budget,
    {
        fit_fragments(copy_fragments(&self.fragments), self.budget)
    }

    /// The text of the block: the retained fragments one after another.
    /// It never has more characters than the budget.
    pub fn text(&self) -> (s: String)
        ensures
            s@ == self@.text(),
            s@.len() <= self@.budget,
    {
        let kept = self.retained();
        proof {
            lemma_render_len(fragment_views(kept@));
        }
        render_fragments(&kept)
    }
}

/// The index of the fragment that is dropped first.
pub fn weakest_index(fs: &Vec<Fragment>) -> (w: usize)
    requires
        fs.len() > 0,
    ensures
        w == weakest(fragment_views(fs@)),
        w < fs.len(),
{
    let ghost all = fragment_views(fs@);
    let mut w: usize = 0;
    let mut i: usize = 1;
    assert(all.take(1).len() <= 1);
    while i < fs.len()
        invariant
            1 <= i <= fs.len(),
            w < i,
            all == fragment_views(fs@),
            w == weakest(all.take(i as int)),
        decreases fs.len() - i,
    {
        assert(all.take(i + 1).drop_last() =~= all.take(i as int));
        assert(all.take(i + 1).last() == fs@[i as int]@);
        assert(all.take(i + 1)[w as int] == fs@[w as int]@);
        if fs[i].rank <= fs[w].rank {
            w = i;
        }
        i += 1;
    }
    assert(all.take(fs.len() as int) =~= all);
    w
}

/// The fragments' texts, one after another.
pub fn render_fragments(fs: &Vec<Fragment>) -> (s: String)
    ensures
        s@ == render(fragment_views(fs@)),
{
    let ghost all = fragment_views(fs@);
    let mut s = String::new();
    let mut i: usize = 0;
    while i < fs.len()
        invariant
            i <= fs.len(),
            all == fragment_views(fs@),
            s@ == render(all.take(i as int)),
        decreases fs.len() - i,
    {
        assert(all.take(i + 1).drop_last() =~= all.take(i as int));
        assert(all.take(i + 1).last() == fs@[i as int]@);
        s.append(fs[i].text.as_str());
        i += 1;
    }
    assert(all.take(fs.len() as int) =~= all);
    s
}

/// A copy of the fragments.
pub fn copy_fragments(fs: &Vec<Fragment>) -> (copy: Vec<Fragment>)
    ensures
        fragment_views(copy@) == fragment_views(fs@),
{
    let mut copy: Vec<Fragment> = Vec::new();
    let mut i: usize = 0;
    while i < fs.len()
        invariant
            i <= fs.len(),
            fragment_views(copy@) == fragment_views(fs@).take(i as int),
        decreases fs.len() - i,
    {
        let ghost prev = fragment_views(copy@);
        let f = fs[i].clone();
        copy.push(f);
        assert(fragment_views(copy@) =~= prev.push(f@));
        assert(fragment_views(fs@).take(i + 1) =~= fragment_views(fs@).take(i as int).push(f@));
        i += 1;
    }
    assert(fragment_views(fs@).take(fs.len() as int) =~= fragment_views(fs@));
    copy
}

/// What is retained of the fragments under a budget of characters: all of
/// them where they fit, else what is left when the weakest are dropped one
/// by one until the rest fits.
pub fn fit_fragments(fragments: Vec<Fragment>, budget: usize) -> (kept: Vec<Fragment>)
    ensures
        fragment_views(kept@) == fit(fragment_views(fragments@), budget as nat),
        total_len(fragment_views(kept@)) <= budget,
{
    let ghost all = fragment_views(fragments@);
    let mut kept = fragments;
    let mut total: u128 = 0;
    let mut i: usize = 0;
    assert(total_len(all.take(0)) == 0);
    while i < kept.len()
        invariant
            i <= kept.len(),
            all == fragment_views(kept@),
            total == total_len(all.take(i as int)),
            total <= i * 0x1_0000_0000_0000_0000,
        decreases kept.len() - i,
    {
        assert(all.take(i + 1).drop_last() =~= all.take(i as int));
        assert(all.take(i + 1).last() == kept@[i as int]@);
        let n = kept[i].text.as_str().unicode_len();
        total = total + n as u128;
        i += 1;
    }
    assert(all.take(kept.len() as int) =~= all);
    while total > budget as u128
        invariant
            fit(fragment_views(kept@), budget as nat) == fit(all, budget as nat),
            total == total_len(fragment_views(kept@)),
        decreases kept.len(),
    {
        let ghost fs = fragment_views(kept@);
        proof {
            lemma_weakest(fs);
        }
        let w = weakest_index(&kept);
        proof {
            lemma_total_len_remove(fs, w as int);
        }
        let gone = kept.remove(w);
        assert(fragment_views(kept@) =~= fs.remove(w as int));
        let n = gone.text.as_str().unicode_len();
        total = total - n as u128;
    }
    kept
}

/// The static domain knowledge as a fragment: the knowledge and a line
/// break, under the highest rank.
pub open spec fn static_fragment(static_knowledge: Seq<char>) -> FragmentView {
    FragmentView { rank: u64::MAX, text: static_knowledge + "\n"@ }
}

/// The fragments that compete for the context: the static knowledge in
/// front, then every gathered fragment in order.
pub open spec fn context_fragments(
    static_knowledge: Seq<char>,
    block: KnowledgeBlockView,
) -> Seq<FragmentView> {
    seq![static_fragment(static_knowledge)] + block.fragments
}

/// The context that the completion client is given: what is retained of
/// the static knowledge and the gathered fragments together under the
/// block's budget, rendered. The static knowledge counts against the
/// budget like any fragment, and as the first of the highest rank it is
/// the last to be dropped.
pub open spec fn assembled(static_knowledge: Seq<char>, block: KnowledgeBlockView) -> Seq<char> {
    render(fit(context_fragments(static_knowledge, block), block.budget))
}

/// The characters of fragments are at least those of the first.
pub proof fn lemma_total_len_first(fs: Seq<FragmentView>)
    requires
        fs.len() > 0,
    ensures
        total_len(fs) >= fs[0].text.len(),
    decreases fs.len(),
{
    if fs.len() > 1 {
        lemma_total_len_first(fs.drop_last());
    } else {
        assert(total_len(fs.drop_last()) == 0);
    }
}

/// A first fragment of the highest rank is dropped last: where it fits
/// the budget by itself it is retained, in front, and where it does not
/// nothing is retained at all.
pub proof fn lemma_first_of_highest_rank(fs: Seq<FragmentView>, budget: nat)
    requires
        fs.len() > 0,
        fs[0].rank == u64::MAX,
    ensures
        fs[0].text.len() <= budget ==> fit(fs, budget).len() > 0 && fit(fs, budget)[0] == fs[0],
        fs[0].text.len() > budget ==> fit(fs, budget) == Seq::<FragmentView>::empty(),
    decreases fs.len(),
{
    lemma_total_len_first(fs);
    if total_len(fs) > budget {
        lemma_weakest(fs);
        let w = weakest(fs);
        if fs.len() == 1 {
            let none = Seq::<FragmentView>::empty();
            assert(fs.drop_last() =~= none);
            assert(total_len(none) == 0);
            assert(total_len(fs) == fs[0].text.len());
            assert(fs.remove(w) =~= none);
            assert(fit(none, budget) == none);
        } else {
            if w == 0 {
                assert(fs[0].rank < fs[1].rank);
            }
            assert(fs.remove(w)[0] == fs[0]);
            lemma_first_of_highest_rank(fs.remove(w), budget);
        }
    }
}

/// The context never exceeds the budget, static knowledge and line break
/// counted. It is made of whole fragments in their order, the lower
/// ranked dropped first. Where the static knowledge and its line break
/// fit the budget the context begins with them; where they do not, the
/// context is empty.
pub proof fn lemma_context_within_budget(static_knowledge: Seq<char>, block: KnowledgeBlockView) -> (idx:
    Seq<int>)
    ensures
        assembled(static_knowledge, block).len() <= block.budget,
        embeds(
            fit(context_fragments(static_knowledge, block), block.budget),
            context_fragments(static_knowledge, block),
            idx,
        ),
        forall|j: int, k: int|
            0 <= j < context_fragments(static_knowledge, block).len() && !idx.contains(j) && 0 <= k
                < idx.len() ==> #[trigger] yields_to(
                context_fragments(static_knowledge, block),
                j,
                idx[k],
            ),
        static_knowledge.len() + 1 <= block.budget ==> crate::text::has_prefix(
            assembled(static_knowledge, block),
            static_knowledge + "\n"@,
        ),
        static_knowledge.len() + 1 > block.budget ==> assembled(static_knowledge, block)
            == Seq::<char>::empty(),
{
    reveal_strlit("\n");
    let all = context_fragments(static_knowledge, block);
    let kept = fit(all, block.budget);
    let idx = lemma_fit(all, block.budget);
    lemma_first_of_highest_rank(all, block.budget);
    if static_knowledge.len() + 1 <= block.budget {
        assert(kept =~= seq![kept[0]] + kept.skip(1));
        lemma_render_concat(seq![kept[0]], kept.skip(1));
        assert(seq![kept[0]].drop_last() =~= Seq::<FragmentView>::empty());
        assert(render(Seq::<FragmentView>::empty()) =~= Seq::<char>::empty());
        assert(render(seq![kept[0]]) =~= kept[0].text);
        assert(render(kept).take((static_knowledge + "\n"@).len() as int) =~= static_knowledge
            + "\n"@);
    }
    idx
}

/// The context for the completion client: the static domain knowledge and
/// the gathered knowledge, held to the block's budget together.
pub fn assemble(static_knowledge: &str, block: &KnowledgeBlock) -> (context: String)
    ensures
        context@ == assembled(static_knowledge@, block@),
        context@.len() <= block@.budget,
{
    let mut first = static_knowledge.to_owned();
    first.append("\n");
    let mut all: Vec<Fragment> = Vec::new();
    all.push(Fragment { rank: u64::MAX, text: first });
    let mut rest = copy_fragments(&block.fragments);
    let ghost head = fragment_views(all@);
    let ghost tail = fragment_views(rest@);
    all.append(&mut rest);
    assert(fragment_views(all@) =~= head + tail);
    assert(head =~= seq![static_fragment(static_knowledge@)]);
    let kept = fit_fragments(all, block.budget);
    proof {
        lemma_render_len(fragment_views(kept@));
    }
    render_fragments(&kept)
}

/// What is known of one topic of the message queue.
#[derive(Debug, Clone, PartialEq)]
pub struct MQTopicDescription {
    pub business_module: String,
    pub topic_name: String,
    pub publisher: String,
    pub remark: String,
}

/// What is known of the message queue.
#[derive(Debug, Clone, PartialEq)]
pub struct MQDataDescription {
    pub mq_descriptions: String,
    pub mq_data_current_state: String,
    pub mq_technology: String,
    pub mq_pub_sub_topics: Vec<MQTopicDescription>,
}

/// The four lines that describe one topic.
pub open spec fn topic_text(t: MQTopicDescription) -> Seq<char> {
    "Business Module: "@ + t.business_module@ + "\n"@ + "Topic Name or Topic String: "@
        + t.topic_name@ + "\n"@ + "Publisher: "@ + t.publisher@ + "\n"@ + "Remark: "@ + t.remark@
        + "\n"@
}

/// The lines of the topics, one topic after another.
pub open spec fn topics_text(topics: Seq<MQTopicDescription>) -> Seq<char>
    decreases topics.len(),
{
    if topics.len() == 0 {
        Seq::empty()
    } else {
        topics_text(topics.drop_last()) + topic_text(topics.last())
    }
}

/// The static knowledge about the message queue: its background, its
/// current state and its technology, each under a heading, then its
/// topics, then an empty line.
pub open spec fn mq_knowledge_of(d: MQDataDescription) -> Seq<char> {
    "Here is the knowledge about Message sync MQ Pub/Sub :\n"@ + d.mq_descriptions@ + "\n"@
        + "Here is the knowledge about Message sync MQ Pub/Sub Current State :\n"@
        + d.mq_data_current_state@ + "\n"@
        + "Here is the knowledge about Message sync MQ Pub/Sub Technology :\n"@ + d.mq_technology@
        + "\n"@ + "Here is the knowledge about Message sync MQ Pub/Sub Topics :\n"@ + topics_text(
        d.mq_pub_sub_topics@,
    ) + "\n"@
}

/// The static knowledge about the message queue, as text.
pub fn render_mq_knowledge(description: &MQDataDescription) -> (knowledge: String)
    ensures
        knowledge@ == mq_knowledge_of(*description),
{
    let mut knowledge = String::new();
    knowledge.append("Here is the knowledge about Message sync MQ Pub/Sub :\n");
    knowledge.append(description.mq_descriptions.as_str());
    knowledge.append("\n");
    knowledge.append("Here is the knowledge about Message sync MQ Pub/Sub Current State :\n");
    knowledge.append(description.mq_data_current_state.as_str());
    knowledge.append("\n");
    knowledge.append("Here is the knowledge about Message sync MQ Pub/Sub Technology :\n");
    knowledge.append(description.mq_technology.as_str());
    knowledge.append("\n");
    knowledge.append("Here is the knowledge about Message sync MQ Pub/Sub Topics :\n");
    let ghost head = knowledge@;
    assert(head =~= "Here is the knowledge about Message sync MQ Pub/Sub :\n"@
        + description.mq_descriptions@ + "\n"@
        + "Here is the knowledge about Message sync MQ Pub/Sub Current State :\n"@
        + description.mq_data_current_state@ + "\n"@
        + "Here is the knowledge about Message sync MQ Pub/Sub Technology :\n"@
        + description.mq_technology@ + "\n"@
        + "Here is the knowledge about Message sync MQ Pub/Sub Topics :\n"@);
    let topics = &description.mq_pub_sub_topics;
    let mut i: usize = 0;
    assert(head + topics_text(topics@.take(0)) =~= head);
    while i < topics.len()
        invariant
            i <= topics.len(),
            knowledge@ == head + topics_text(topics@.take(i as int)),
        decreases topics.len() - i,
    {
        let t = &topics[i];
        let ghost before = knowledge@;
        assert(topics@.take(i + 1).drop_last() =~= topics@.take(i as int));
        assert(topics@.take(i + 1).last() == *t);
        knowledge.append("Business Module: ");
        knowledge.append(t.business_module.as_str());
        knowledge.append("\n");
        knowledge.append("Topic Name or Topic String: ");
        knowledge.append(t.topic_name.as_str());
        knowledge.append("\n");
        knowledge.append("Publisher: ");
        knowledge.append(t.publisher.as_str());
        knowledge.append("\n");
        knowledge.append("Remark: ");
        knowledge.append(t.remark.as_str());
        knowledge.append("\n");
        assert(knowledge@ =~= before + topic_text(*t));
        assert((head + topics_text(topics@.take(i as int))) + topic_text(*t) =~= head + (
        topics_text(topics@.take(i as int)) + topic_text(*t)));
        i += 1;
    }
    assert(topics@.take(topics.len() as int) =~= topics@);
    knowledge.append("\n");
    assert(knowledge@ =~= mq_knowledge_of(*description));
    knowledge
}

} // verus!
