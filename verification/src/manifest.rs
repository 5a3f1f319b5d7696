use vstd::prelude::*;
use crate::text::{find_from, find_char_from, lemma_find_from, tokens_from, tokens_of, str_eq,
    str_eq_chars, is_space_spec};
use crate::urls::{resolve_of, resolve_ok, resolve_url};

verus! {

broadcast use vstd::string::group_string_axioms;

/// One parsed manifest line.
pub enum Directive {
    /// `load <path>`: a leaf test document.
    Load(String),
    /// The directive that pulls a child manifest in, to be drained
    /// depth-first before the rest of the current one.
    Child(String),
    /// Nothing left after comment stripping and trimming.
    Blank,
    /// Wrong token count or unknown command: warned about and skipped.
    Malformed,
}

/// Spec-level counterpart of `Directive`.
pub enum DirectiveModel {
    Load(Seq<char>),
    Child(Seq<char>),
    Blank,
    Malformed,
}

impl View for Directive {
    type V = DirectiveModel;

    open spec fn view(&self) -> DirectiveModel {
        match self {
            Directive::Load(p) => DirectiveModel::Load(p@),
            Directive::Child(p) => DirectiveModel::Child(p@),
            Directive::Blank => DirectiveModel::Blank,
            Directive::Malformed => DirectiveModel::Malformed,
        }
    }
}

/// The keyword of the directive that pulls a child manifest in.
pub open spec fn child_keyword() -> Seq<char> {
    seq!['i', 'n', 'c', 'l', 'u', 'd', 'e']
}

fn child_keyword_chars() -> (r: Vec<char>)
    ensures
        r@ == child_keyword(),
{
    let mut cs: Vec<char> = Vec::new();
    cs.push('i');
    cs.push('n');
    cs.push('c');
    cs.push('l');
    cs.push('u');
    cs.push('d');
    cs.push('e');
    proof {
        assert(cs@ =~= child_keyword());
    }
    cs
}

/// Everything before the first comment marker.
pub open spec fn strip_comment_spec(l: Seq<char>) -> Seq<char> {
    l.take(find_from(l, '#', 0))
}

/// What one manifest line means: comments are stripped, a line without
/// tokens is blank, and a well-formed line is exactly a command token
/// and one argument token.
pub open spec fn parse_line_spec(l: Seq<char>) -> DirectiveModel {
    let toks = tokens_from(strip_comment_spec(l), 0);
    if toks.len() == 0 {
        DirectiveModel::Blank
    } else if toks.len() != 2 {
        DirectiveModel::Malformed
    } else if toks[0] == "load"@ {
        DirectiveModel::Load(toks[1])
    } else if toks[0] == child_keyword() {
        DirectiveModel::Child(toks[1])
    } else {
        DirectiveModel::Malformed
    }
}

/// Parses one manifest line, as `parse_line_spec` states it.
pub fn parse_line(line: &str) -> (d: Directive)
    ensures
        d@ == parse_line_spec(line@),
{
    let h = find_char_from(line, '#', 0);
    proof {
        lemma_find_from(line@, '#', 0);
    }
    let stripped = line.substring_char(0, h);
    proof {
        assert(stripped@ =~= strip_comment_spec(line@));
    }
    let toks = tokens_of(stripped);
    proof {
        assert(toks.deep_view().len() == toks@.len());
        if toks@.len() > 0 {
            assert(toks.deep_view()[0] == toks@[0]@);
        }
        if toks@.len() > 1 {
            assert(toks.deep_view()[1] == toks@[1]@);
        }
    }
    if toks.len() == 0 {
        Directive::Blank
    } else if toks.len() != 2 {
        Directive::Malformed
    } else if str_eq(toks[0].as_str(), "load") {
        Directive::Load(toks[1].clone())
    } else {
        let kw = child_keyword_chars();
        if str_eq_chars(toks[0].as_str(), &kw) {
            Directive::Child(toks[1].clone())
        } else {
            Directive::Malformed
        }
    }
}

/// Parsing state for one open manifest: its own resolved URL and its
/// lines, of which those before `pos` are already consumed.
pub struct ManifestFrame {
    pub base: String,
    pub lines: Vec<String>,
    pub pos: usize,
}

/// Spec-level counterpart of `ManifestFrame`.
pub struct FrameModel {
    pub base: Seq<char>,
    pub lines: Seq<Seq<char>>,
    pub pos: int,
}

impl View for ManifestFrame {
    type V = FrameModel;

    open spec fn view(&self) -> FrameModel {
        FrameModel { base: self.base@, lines: self.lines.deep_view(), pos: self.pos as int }
    }
}

impl DeepView for ManifestFrame {
    type V = FrameModel;

    open spec fn deep_view(&self) -> FrameModel {
        self.view()
    }
}

/// The stack of open manifests: the most recently pushed child is
/// drained first, and the root frame's exhaustion ends the traversal.
/// `pending` holds the resolved URL of a child manifest whose lines the
/// caller has been asked for and has not yet supplied.
pub struct CrashtestList {
    frames: Vec<ManifestFrame>,
    pending: Option<String>,
}

/// Spec-level counterpart of `CrashtestList`.
pub struct ListModel {
    pub frames: Seq<FrameModel>,
    pub pending: Option<Seq<char>>,
}

impl View for CrashtestList {
    type V = ListModel;

    closed spec fn view(&self) -> ListModel {
        ListModel {
            frames: self.frames.deep_view(),
            pending: match self.pending {
                Some(ref s) => Some(s@),
                None => None,
            },
        }
    }
}

/// What one interpreter step produced.
pub enum StepEvent {
    /// The next test URL, resolved against its manifest's own URL.
    Url(String),
    /// A child manifest must be opened: its resolved URL. The caller
    /// reads it and hands its lines to `supply_child`.
    Child(String),
    /// A malformed line was skipped; the caller may log it.
    SkippedLine(String),
    /// A blank line was consumed or an exhausted manifest was closed.
    Progress,
    /// The root manifest is exhausted and no manifests remain open.
    Done,
}

/// A fatal interpreter error: the traversal must be abandoned.
pub enum StepError {
    /// A `load` or child reference on this line could not be resolved
    /// against the manifest's URL.
    Unresolvable(String),
}

/// The model after consuming one line of the top frame.
pub open spec fn consumed(m: ListModel) -> ListModel {
    let k = m.frames.len() - 1;
    let top = m.frames[k];
    ListModel {
        frames: m.frames.update(k, FrameModel { base: top.base, lines: top.lines, pos: top.pos + 1 }),
        pending: None,
    }
}

/// The model after closing the exhausted top frame.
pub open spec fn popped(m: ListModel) -> ListModel {
    ListModel { frames: m.frames.drop_last(), pending: None }
}

impl CrashtestList {
    /// Opens a traversal on the root manifest, given its resolved URL
    /// and its lines.
    pub fn new(base_url: String, lines: Vec<String>) -> (s: Self)
        ensures
            s@.frames == seq![
                FrameModel { base: base_url@, lines: lines.deep_view(), pos: 0 },
            ],
            s@.pending is None,
    {
        let frame = ManifestFrame { base: base_url, lines, pos: 0 };
        let mut frames: Vec<ManifestFrame> = Vec::new();
        frames.push(frame);
        let s = CrashtestList { frames, pending: None };
        proof {
            assert(s@.frames =~= seq![
                FrameModel { base: base_url@, lines: lines.deep_view(), pos: 0 },
            ]);
        }
        s
    }

    /// Performs one step of the depth-first traversal: consumes one
    /// line of the most recently opened manifest, or closes it when it
    /// is exhausted. Resolution of a reference against the manifest's
    /// URL may fail, which is fatal.
    pub fn next(&mut self) -> (r: Result<StepEvent, StepError>)
        requires
            old(self)@.pending is None,
        ensures
            ({
                let m0 = old(self)@;
                let m1 = final(self)@;
                &&& m0.frames.len() == 0 ==> (r matches Ok(StepEvent::Done) && m1 == m0)
                &&& (m0.frames.len() > 0 && m0.frames.last().pos >= m0.frames.last().lines.len())
                    ==> (r matches Ok(StepEvent::Progress) && m1 == popped(m0))
                &&& (m0.frames.len() > 0 && m0.frames.last().pos < m0.frames.last().lines.len())
                    ==> {
                    let line = m0.frames.last().lines[m0.frames.last().pos];
                    let base = m0.frames.last().base;
                    match parse_line_spec(line) {
                        DirectiveModel::Blank => r matches Ok(StepEvent::Progress) && m1 == consumed(
                            m0,
                        ),
                        DirectiveModel::Malformed => (r matches Ok(StepEvent::SkippedLine(l))
                            && l@ == line) && m1 == consumed(m0),
                        DirectiveModel::Load(p) => m1 == consumed(m0) && (if resolve_ok(base, p) {
                            r matches Ok(StepEvent::Url(u)) && u@ == resolve_of(base, p)
                        } else {
                            r matches Err(StepError::Unresolvable(l)) && l@ == line
                        }),
                        DirectiveModel::Child(p) => if resolve_ok(base, p) {
                            (r matches Ok(StepEvent::Child(u)) && u@ == resolve_of(base, p))
                                && m1.frames == consumed(m0).frames && m1.pending == Some(
                                resolve_of(base, p),
                            )
                        } else {
                            (r matches Err(StepError::Unresolvable(l)) && l@ == line) && m1
                                == consumed(m0)
                        },
                    }
                }
            }),
    {
        let n = self.frames.len();
        if n == 0 {
            return Ok(StepEvent::Done);
        }
        let mut fr = self.frames.pop().unwrap();
        if fr.pos >= fr.lines.len() {
            proof {
                assert(final(self)@.frames =~= popped(old(self)@).frames);
            }
            return Ok(StepEvent::Progress);
        }
        let line = fr.lines[fr.pos].clone();
        fr.pos = fr.pos + 1;
        let d = parse_line(line.as_str());
        let ghost m_consumed = consumed(old(self)@);
        match d {
            Directive::Blank => {
                self.frames.push(fr);
                proof {
                    assert(self@.frames =~= m_consumed.frames);
                }
                Ok(StepEvent::Progress)
            },
            Directive::Malformed => {
                self.frames.push(fr);
                proof {
                    assert(self@.frames =~= m_consumed.frames);
                }
                Ok(StepEvent::SkippedLine(line))
            },
            Directive::Load(p) => {
                let resolved = resolve_url(fr.base.as_str(), p.as_str());
                self.frames.push(fr);
                proof {
                    assert(self@.frames =~= m_consumed.frames);
                }
                match resolved {
                    Some(u) => Ok(StepEvent::Url(u)),
                    None => Err(StepError::Unresolvable(line)),
                }
            },
            Directive::Child(p) => {
                let resolved = resolve_url(fr.base.as_str(), p.as_str());
                self.frames.push(fr);
                proof {
                    assert(self@.frames =~= m_consumed.frames);
                }
                match resolved {
                    Some(u) => {
                        self.pending = Some(u.clone());
                        Ok(StepEvent::Child(u))
                    },
                    None => Err(StepError::Unresolvable(line)),
                }
            },
        }
    }

    /// Hands the interpreter the lines of the child manifest it asked
    /// for; the child becomes the manifest drained next.
    pub fn supply_child(&mut self, lines: Vec<String>)
        requires
            old(self)@.pending matches Some(_),
        ensures
            final(self)@.frames == old(self)@.frames.push(
                FrameModel {
                    base: old(self)@.pending.unwrap(),
                    lines: lines.deep_view(),
                    pos: 0,
                },
            ),
            final(self)@.pending is None,
    {
        let base = self.pending.take().unwrap();
        let frame = ManifestFrame { base, lines, pos: 0 };
        self.frames.push(frame);
        proof {
            assert(self@.frames =~= old(self)@.frames.push(
                FrameModel { base: old(self)@.pending.unwrap(), lines: lines.deep_view(), pos: 0 },
            ));
        }
    }
}

/// A model of the manifest corpus on disk: each manifest's resolved
/// URL mapped to its lines.
pub open spec fn fs_lines(fs: Map<Seq<char>, Seq<Seq<char>>>, u: Seq<char>) -> Seq<Seq<char>> {
    fs[u]
}

/// The full depth-first expansion of a manifest given as `lines` at
/// URL `base`, over the corpus model `fs`: each `load` line emits its
/// resolved target in file order, and a child manifest's whole
/// expansion stands in place of the line that pulled it in, before the
/// rest of the parent's lines. `None` when nesting exceeds `depth`.
pub open spec fn expand_lines(
    fs: Map<Seq<char>, Seq<Seq<char>>>,
    base: Seq<char>,
    lines: Seq<Seq<char>>,
    depth: nat,
) -> Option<Seq<Seq<char>>>
    decreases depth, lines.len(),
{
    if lines.len() == 0 {
        Some(Seq::empty())
    } else {
        let rest = expand_lines(fs, base, lines.drop_first(), depth);
        match parse_line_spec(lines[0]) {
            DirectiveModel::Blank => rest,
            DirectiveModel::Malformed => rest,
            DirectiveModel::Load(p) => match rest {
                Some(t) => Some(seq![resolve_of(base, p)] + t),
                None => None,
            },
            DirectiveModel::Child(p) => {
                if depth == 0 {
                    None
                } else {
                    match (
                        expand_lines(fs, resolve_of(base, p), fs_lines(fs, resolve_of(base, p)), (
                        depth - 1) as nat),
                        rest,
                    ) {
                        (Some(c), Some(t)) => Some(c + t),
                        _ => None,
                    }
                }
            },
        }
    }
}

/// The resolved `load` targets of `lines`, in file order, with every
/// other kind of line passed over.
pub open spec fn loads_of(base: Seq<char>, lines: Seq<Seq<char>>) -> Seq<Seq<char>>
    decreases lines.len(),
{
    if lines.len() == 0 {
        Seq::empty()
    } else {
        let rest = loads_of(base, lines.drop_first());
        match parse_line_spec(lines[0]) {
            DirectiveModel::Load(p) => seq![resolve_of(base, p)] + rest,
            _ => rest,
        }
    }
}

/// A manifest without child directives expands to exactly its `load`
/// targets, resolved against the manifest's URL, in file order.
pub proof fn lemma_flat_manifest_order(
    fs: Map<Seq<char>, Seq<Seq<char>>>,
    base: Seq<char>,
    lines: Seq<Seq<char>>,
    depth: nat,
)
    requires
        forall|i: int|
            0 <= i < lines.len() ==> !(#[trigger] parse_line_spec(lines[i])
                matches DirectiveModel::Child(_)),
    ensures
        expand_lines(fs, base, lines, depth) == Some(loads_of(base, lines)),
    decreases lines.len(),
{
    if lines.len() > 0 {
        let tail = lines.drop_first();
        assert forall|i: int|
            0 <= i < tail.len() implies !(#[trigger] parse_line_spec(tail[i])
            matches DirectiveModel::Child(_)) by {
            assert(tail[i] == lines[i + 1]);
        }
        lemma_flat_manifest_order(fs, base, tail, depth);
        assert(!(parse_line_spec(lines[0]) matches DirectiveModel::Child(_)));
    }
}

/// For a manifest that pulls a child manifest in at line `k`, with no
/// earlier child directive, the expansion is: the parent's `load`
/// targets before line `k`, then the child's whole expansion, then the
/// expansion of the parent's remaining lines — recursively, since the
/// child's own expansion obeys the same law.
pub proof fn lemma_child_manifest_order(
    fs: Map<Seq<char>, Seq<Seq<char>>>,
    base: Seq<char>,
    lines: Seq<Seq<char>>,
    k: int,
    p: Seq<char>,
    depth: nat,
)
    requires
        0 <= k < lines.len(),
        parse_line_spec(lines[k]) == DirectiveModel::Child(p),
        forall|i: int|
            0 <= i < k ==> !(#[trigger] parse_line_spec(lines[i]) matches DirectiveModel::Child(_)),
        depth > 0,
    ensures
        ({
            let child = expand_lines(fs, resolve_of(base, p), fs_lines(fs, resolve_of(base, p)), (
            depth - 1) as nat);
            let rest = expand_lines(fs, base, lines.skip(k + 1), depth);
            expand_lines(fs, base, lines, depth) == (match (child, rest) {
                (Some(c), Some(t)) => Some(loads_of(base, lines.take(k)) + c + t),
                _ => None::<Seq<Seq<char>>>,
            })
        }),
    decreases k,
{
    let child = expand_lines(fs, resolve_of(base, p), fs_lines(fs, resolve_of(base, p)), (depth
        - 1) as nat);
    if k == 0 {
        assert(lines.skip(1) =~= lines.drop_first());
        assert(lines.take(0) =~= Seq::<Seq<char>>::empty());
        let rest = expand_lines(fs, base, lines.drop_first(), depth);
        if child is Some && rest is Some {
            assert(loads_of(base, lines.take(0)) + child.unwrap() + rest.unwrap() =~= child.unwrap()
                + rest.unwrap());
        }
    } else {
        let tail = lines.drop_first();
        assert forall|i: int|
            0 <= i < k - 1 implies !(#[trigger] parse_line_spec(tail[i])
            matches DirectiveModel::Child(_)) by {
            assert(tail[i] == lines[i + 1]);
        }
        assert(tail[k - 1] == lines[k]);
        lemma_child_manifest_order(fs, base, tail, k - 1, p, depth);
        assert(tail.skip(k) =~= lines.skip(k + 1));
        let rest = expand_lines(fs, base, lines.skip(k + 1), depth);
        let head = parse_line_spec(lines[0]);
        assert(lines.take(k)[0] == lines[0]);
        assert(lines.take(k).drop_first() =~= tail.take(k - 1));
        assert(!(head matches DirectiveModel::Child(_)));
        if child is Some && rest is Some {
            let c = child.unwrap();
            let t = rest.unwrap();
            match head {
                DirectiveModel::Load(q) => {
                    assert(seq![resolve_of(base, q)] + (loads_of(base, tail.take(k - 1)) + c + t)
                        =~= loads_of(base, lines.take(k)) + c + t);
                },
                _ => {},
            }
        }
    }
}

/// The output still owed by an open stack of manifest frames, newest
/// frame first, over the corpus model `fs`: what the top frame's
/// remaining lines expand to, then what each frame beneath it still
/// owes. `depth` is the nesting budget left to the top frame; each
/// frame beneath has one more.
pub open spec fn list_rest(
    fs: Map<Seq<char>, Seq<Seq<char>>>,
    frames: Seq<FrameModel>,
    depth: nat,
) -> Option<Seq<Seq<char>>>
    decreases frames.len(),
{
    if frames.len() == 0 {
        Some(Seq::empty())
    } else {
        let top = frames.last();
        match (
            expand_lines(fs, top.base, top.lines.skip(top.pos), depth),
            list_rest(fs, frames.drop_last(), (depth + 1) as nat),
        ) {
            (Some(here), Some(below)) => Some(here + below),
            _ => None,
        }
    }
}

/// A fresh traversal owes exactly the root manifest's expansion.
pub proof fn lemma_list_rest_initial(
    fs: Map<Seq<char>, Seq<Seq<char>>>,
    base: Seq<char>,
    lines: Seq<Seq<char>>,
    depth: nat,
)
    ensures
        list_rest(fs, seq![FrameModel { base, lines, pos: 0 }], depth) == expand_lines(
            fs,
            base,
            lines,
            depth,
        ),
{
    let frames = seq![FrameModel { base, lines, pos: 0 }];
    assert(frames.last() == FrameModel { base, lines, pos: 0 });
    assert(frames.last().lines.skip(0) =~= lines);
    assert(frames.drop_last() =~= Seq::<FrameModel>::empty());
    assert(list_rest(fs, frames.drop_last(), (depth + 1) as nat) == Some(
        Seq::<Seq<char>>::empty(),
    ));
    let e = expand_lines(fs, base, lines, depth);
    assert(expand_lines(fs, frames.last().base, frames.last().lines.skip(frames.last().pos), depth)
        == e);
    if e is Some {
        assert(e.unwrap() + Seq::<Seq<char>>::empty() =~= e.unwrap());
        assert(list_rest(fs, frames, depth) == Some(e.unwrap() + Seq::<Seq<char>>::empty()));
    }
}

/// Closing an exhausted manifest leaves the owed output unchanged.
pub proof fn lemma_list_rest_pop(m: ListModel, fs: Map<Seq<char>, Seq<Seq<char>>>, depth: nat)
    requires
        m.frames.len() > 0,
        m.frames.last().pos == m.frames.last().lines.len(),
    ensures
        list_rest(fs, m.frames, depth) == list_rest(fs, popped(m).frames, (depth + 1) as nat),
{
    let top = m.frames.last();
    assert(top.lines.skip(top.pos) =~= Seq::<Seq<char>>::empty());
    let below = list_rest(fs, m.frames.drop_last(), (depth + 1) as nat);
    if below is Some {
        assert(Seq::<Seq<char>>::empty() + below.unwrap() =~= below.unwrap());
    }
}

/// Consuming a line that yields nothing — blank or malformed — leaves
/// the owed output unchanged.
pub proof fn lemma_list_rest_skip(m: ListModel, fs: Map<Seq<char>, Seq<Seq<char>>>, depth: nat)
    requires
        m.frames.len() > 0,
        0 <= m.frames.last().pos < m.frames.last().lines.len(),
        parse_line_spec(m.frames.last().lines[m.frames.last().pos]) matches DirectiveModel::Blank
            || parse_line_spec(m.frames.last().lines[m.frames.last().pos])
            matches DirectiveModel::Malformed,
    ensures
        list_rest(fs, m.frames, depth) == list_rest(fs, consumed(m).frames, depth),
{
    let top = m.frames.last();
    let rem = top.lines.skip(top.pos);
    assert(rem[0] == top.lines[top.pos]);
    assert(rem.drop_first() =~= top.lines.skip(top.pos + 1));
    assert(consumed(m).frames.last() == FrameModel {
        base: top.base,
        lines: top.lines,
        pos: top.pos + 1,
    });
    assert(consumed(m).frames.drop_last() =~= m.frames.drop_last());
}

/// Consuming a `load` line prepends its resolved target to the owed
/// output.
pub proof fn lemma_list_rest_load(
    m: ListModel,
    fs: Map<Seq<char>, Seq<Seq<char>>>,
    p: Seq<char>,
    depth: nat,
)
    requires
        m.frames.len() > 0,
        0 <= m.frames.last().pos < m.frames.last().lines.len(),
        parse_line_spec(m.frames.last().lines[m.frames.last().pos]) == DirectiveModel::Load(p),
    ensures
        list_rest(fs, m.frames, depth) == (match list_rest(fs, consumed(m).frames, depth) {
            Some(t) => Some(seq![resolve_of(m.frames.last().base, p)] + t),
            None => None::<Seq<Seq<char>>>,
        }),
{
    let top = m.frames.last();
    let rem = top.lines.skip(top.pos);
    assert(rem[0] == top.lines[top.pos]);
    assert(rem.drop_first() =~= top.lines.skip(top.pos + 1));
    assert(consumed(m).frames.last() == FrameModel {
        base: top.base,
        lines: top.lines,
        pos: top.pos + 1,
    });
    assert(consumed(m).frames.drop_last() =~= m.frames.drop_last());
    let u = resolve_of(top.base, p);
    let here2 = expand_lines(fs, top.base, top.lines.skip(top.pos + 1), depth);
    let below = list_rest(fs, m.frames.drop_last(), (depth + 1) as nat);
    if here2 is Some && below is Some {
        assert((seq![u] + here2.unwrap()) + below.unwrap() =~= seq![u] + (here2.unwrap()
            + below.unwrap()));
    }
}

/// Consuming the directive that pulls a child manifest in, then
/// opening that child — with exactly the lines the corpus model holds
/// for it — leaves the owed output unchanged, with one budget step
/// spent.
pub proof fn lemma_list_rest_child(
    m: ListModel,
    fs: Map<Seq<char>, Seq<Seq<char>>>,
    p: Seq<char>,
    depth: nat,
)
    requires
        m.frames.len() > 0,
        0 <= m.frames.last().pos < m.frames.last().lines.len(),
        parse_line_spec(m.frames.last().lines[m.frames.last().pos]) == DirectiveModel::Child(p),
        depth > 0,
    ensures
        list_rest(fs, m.frames, depth) == list_rest(
            fs,
            consumed(m).frames.push(
                FrameModel {
                    base: resolve_of(m.frames.last().base, p),
                    lines: fs_lines(fs, resolve_of(m.frames.last().base, p)),
                    pos: 0,
                },
            ),
            (depth - 1) as nat,
        ),
{
    let top = m.frames.last();
    let rem = top.lines.skip(top.pos);
    assert(rem[0] == top.lines[top.pos]);
    assert(rem.drop_first() =~= top.lines.skip(top.pos + 1));
    let u = resolve_of(top.base, p);
    let child_frame = FrameModel { base: u, lines: fs_lines(fs, u), pos: 0 };
    let new_frames = consumed(m).frames.push(child_frame);
    assert(new_frames.last() == child_frame);
    assert(new_frames.drop_last() =~= consumed(m).frames);
    assert(child_frame.lines.skip(0) =~= fs_lines(fs, u));
    assert(consumed(m).frames.last() == FrameModel {
        base: top.base,
        lines: top.lines,
        pos: top.pos + 1,
    });
    assert(consumed(m).frames.drop_last() =~= m.frames.drop_last());
    assert(((depth - 1) as nat + 1) as nat == depth);
    let child_exp = expand_lines(fs, u, fs_lines(fs, u), (depth - 1) as nat);
    let here2 = expand_lines(fs, top.base, top.lines.skip(top.pos + 1), depth);
    let below = list_rest(fs, m.frames.drop_last(), (depth + 1) as nat);
    assert(expand_lines(fs, top.base, rem.drop_first(), depth) == here2);
    assert(list_rest(fs, consumed(m).frames, depth) == (match (here2, below) {
        (Some(h), Some(b)) => Some(h + b),
        _ => None::<Seq<Seq<char>>>,
    }));
    assert(list_rest(fs, new_frames, (depth - 1) as nat) == (match (
        child_exp,
        list_rest(fs, consumed(m).frames, depth),
    ) {
        (Some(c), Some(t)) => Some(c + t),
        _ => None::<Seq<Seq<char>>>,
    }));
    if child_exp is Some && here2 is Some && below is Some {
        assert((child_exp.unwrap() + here2.unwrap()) + below.unwrap() =~= child_exp.unwrap() + (
        here2.unwrap() + below.unwrap()));
    }
}

/// One completed interpreter step at the model level, exactly as
/// `next` — and, on a child-manifest line, the `supply_child` that
/// follows — transforms the frame stack: `m0` to `m1`, with `d0`/`d1`
/// the nesting budget of the top frame and `out` the URLs emitted
/// (none or one). Child lines are the corpus model's, as the driver
/// supplies them; every resolution succeeds, as in any traversal that
/// was not abandoned.
pub open spec fn step_rel(
    fs: Map<Seq<char>, Seq<Seq<char>>>,
    m0: Seq<FrameModel>,
    d0: nat,
    m1: Seq<FrameModel>,
    d1: nat,
    out: Seq<Seq<char>>,
) -> bool {
    let m = ListModel { frames: m0, pending: None };
    let top = m0.last();
    &&& m0.len() > 0
    &&& if top.pos == top.lines.len() {
        m1 == popped(m).frames && d1 == d0 + 1 && out == Seq::<Seq<char>>::empty()
    } else {
        &&& 0 <= top.pos < top.lines.len()
        &&& match parse_line_spec(top.lines[top.pos]) {
            DirectiveModel::Blank => m1 == consumed(m).frames && d1 == d0 && out == Seq::<
                Seq<char>,
            >::empty(),
            DirectiveModel::Malformed => m1 == consumed(m).frames && d1 == d0 && out == Seq::<
                Seq<char>,
            >::empty(),
            DirectiveModel::Load(p) => resolve_ok(top.base, p) && m1 == consumed(m).frames && d1
                == d0 && out == seq![resolve_of(top.base, p)],
            DirectiveModel::Child(p) => resolve_ok(top.base, p) && d0 == d1 + 1 && m1 == consumed(
                m,
            ).frames.push(
                FrameModel {
                    base: resolve_of(top.base, p),
                    lines: fs_lines(fs, resolve_of(top.base, p)),
                    pos: 0,
                },
            ) && out == Seq::<Seq<char>>::empty(),
        }
    }
}

/// A chain of interpreter steps: `states` the frame stacks visited,
/// `depths` the matching nesting budgets, `outs` what each step
/// emitted.
pub open spec fn is_run(
    fs: Map<Seq<char>, Seq<Seq<char>>>,
    states: Seq<Seq<FrameModel>>,
    depths: Seq<nat>,
    outs: Seq<Seq<Seq<char>>>,
) -> bool {
    &&& states.len() == outs.len() + 1
    &&& depths.len() == states.len()
    &&& forall|i: int|
        0 <= i < outs.len() ==> #[trigger] step_rel(
            fs,
            states[i],
            depths[i],
            states[i + 1],
            depths[i + 1],
            outs[i],
        )
}

/// Everything the steps of a run emitted, in order.
pub open spec fn concat_all(outs: Seq<Seq<Seq<char>>>) -> Seq<Seq<char>>
    decreases outs.len(),
{
    if outs.len() == 0 {
        Seq::empty()
    } else {
        outs[0] + concat_all(outs.drop_first())
    }
}

/// A run that reaches the empty stack has emitted exactly what its
/// first state owed.
pub proof fn lemma_run_output(
    fs: Map<Seq<char>, Seq<Seq<char>>>,
    states: Seq<Seq<FrameModel>>,
    depths: Seq<nat>,
    outs: Seq<Seq<Seq<char>>>,
)
    requires
        is_run(fs, states, depths, outs),
        states.last().len() == 0,
    ensures
        list_rest(fs, states[0], depths[0]) == Some(concat_all(outs)),
    decreases outs.len(),
{
    if outs.len() == 0 {
        assert(states[0] == states.last());
    } else {
        let states2 = states.drop_first();
        let depths2 = depths.drop_first();
        let outs2 = outs.drop_first();
        assert forall|i: int|
            0 <= i < outs2.len() implies #[trigger] step_rel(
            fs,
            states2[i],
            depths2[i],
            states2[i + 1],
            depths2[i + 1],
            outs2[i],
        ) by {
            let j = i + 1;
            assert(step_rel(fs, states[j], depths[j], states[j + 1], depths[j + 1], outs[j]));
            assert(states2[i] == states[j] && states2[i + 1] == states[j + 1]);
            assert(depths2[i] == depths[j] && depths2[i + 1] == depths[j + 1]);
            assert(outs2[i] == outs[j]);
        }
        assert(states2.last() == states.last());
        lemma_run_output(fs, states2, depths2, outs2);
        let rest = concat_all(outs2);
        assert(step_rel(fs, states[0], depths[0], states[1], depths[1], outs[0]));
        let m = ListModel { frames: states[0], pending: None };
        let top = states[0].last();
        if top.pos == top.lines.len() {
            lemma_list_rest_pop(m, fs, depths[0]);
            assert(concat_all(outs) =~= rest);
        } else {
            match parse_line_spec(top.lines[top.pos]) {
                DirectiveModel::Blank => {
                    lemma_list_rest_skip(m, fs, depths[0]);
                    assert(concat_all(outs) =~= rest);
                },
                DirectiveModel::Malformed => {
                    lemma_list_rest_skip(m, fs, depths[0]);
                    assert(concat_all(outs) =~= rest);
                },
                DirectiveModel::Load(p) => {
                    lemma_list_rest_load(m, fs, p, depths[0]);
                    assert(concat_all(outs) =~= seq![resolve_of(top.base, p)] + rest);
                },
                DirectiveModel::Child(p) => {
                    lemma_list_rest_child(m, fs, p, depths[0]);
                    assert((depths[0] - 1) as nat == depths[1]);
                    assert(concat_all(outs) =~= rest);
                },
            }
        }
    }
}

/// The whole-run statement behind the order laws: a traversal that
/// starts on a fresh root frame and runs to the empty stack emits
/// exactly the root manifest's depth-first expansion, in order.
pub proof fn lemma_run_from_root(
    fs: Map<Seq<char>, Seq<Seq<char>>>,
    base: Seq<char>,
    lines: Seq<Seq<char>>,
    depth: nat,
    states: Seq<Seq<FrameModel>>,
    depths: Seq<nat>,
    outs: Seq<Seq<Seq<char>>>,
)
    requires
        is_run(fs, states, depths, outs),
        states[0] == seq![FrameModel { base, lines, pos: 0 }],
        depths[0] == depth,
        states.last().len() == 0,
    ensures
        expand_lines(fs, base, lines, depth) == Some(concat_all(outs)),
{
    lemma_run_output(fs, states, depths, outs);
    lemma_list_rest_initial(fs, base, lines, depth);
}

/// Run-level form of the flat-manifest law: a completed traversal of
/// a manifest without child directives emits its `load` targets,
/// resolved against the manifest's URL, in file order.
pub proof fn lemma_run_flat_manifest(
    fs: Map<Seq<char>, Seq<Seq<char>>>,
    base: Seq<char>,
    lines: Seq<Seq<char>>,
    depth: nat,
    states: Seq<Seq<FrameModel>>,
    depths: Seq<nat>,
    outs: Seq<Seq<Seq<char>>>,
)
    requires
        is_run(fs, states, depths, outs),
        states[0] == seq![FrameModel { base, lines, pos: 0 }],
        depths[0] == depth,
        states.last().len() == 0,
        forall|i: int|
            0 <= i < lines.len() ==> !(#[trigger] parse_line_spec(lines[i])
                matches DirectiveModel::Child(_)),
    ensures
        concat_all(outs) == loads_of(base, lines),
{
    lemma_run_from_root(fs, base, lines, depth, states, depths, outs);
    lemma_flat_manifest_order(fs, base, lines, depth);
}

/// Run-level form of the child-manifest law: when line `k` is the
/// first child directive, a completed traversal emits the parent's
/// earlier `load` targets, then the child's whole expansion, then the
/// expansion of the parent's remaining lines.
pub proof fn lemma_run_child_manifest(
    fs: Map<Seq<char>, Seq<Seq<char>>>,
    base: Seq<char>,
    lines: Seq<Seq<char>>,
    k: int,
    p: Seq<char>,
    depth: nat,
    states: Seq<Seq<FrameModel>>,
    depths: Seq<nat>,
    outs: Seq<Seq<Seq<char>>>,
)
    requires
        is_run(fs, states, depths, outs),
        states[0] == seq![FrameModel { base, lines, pos: 0 }],
        depths[0] == depth,
        states.last().len() == 0,
        0 <= k < lines.len(),
        parse_line_spec(lines[k]) == DirectiveModel::Child(p),
        forall|i: int|
            0 <= i < k ==> !(#[trigger] parse_line_spec(lines[i]) matches DirectiveModel::Child(_)),
        depth > 0,
    ensures
        ({
            let child = expand_lines(fs, resolve_of(base, p), fs_lines(fs, resolve_of(base, p)), (
            depth - 1) as nat);
            let rest = expand_lines(fs, base, lines.skip(k + 1), depth);
            &&& child is Some
            &&& rest is Some
            &&& concat_all(outs) == loads_of(base, lines.take(k)) + child.unwrap() + rest.unwrap()
        }),
{
    lemma_run_from_root(fs, base, lines, depth, states, depths, outs);
    lemma_child_manifest_order(fs, base, lines, k, p, depth);
}

proof fn lemma_tokens_all_space(l: Seq<char>, i: int)
    requires
        0 <= i <= l.len(),
        forall|j: int| 0 <= j < l.len() ==> is_space_spec(#[trigger] l[j]),
    ensures
        tokens_from(l, i) == Seq::<Seq<char>>::empty(),
    decreases l.len() - i,
{
    if i < l.len() {
        lemma_tokens_all_space(l, i + 1);
    }
}

/// Comment stripping is purely textual: appending a comment marker and
/// arbitrary text to a line without one leaves its meaning unchanged.
pub proof fn lemma_comment_is_textual(l: Seq<char>, c: Seq<char>)
    requires
        forall|i: int| 0 <= i < l.len() ==> #[trigger] l[i] != '#',
    ensures
        parse_line_spec(l + seq!['#'] + c) == parse_line_spec(l),
{
    let full = l + seq!['#'] + c;
    lemma_find_from(full, '#', 0);
    lemma_find_from(l, '#', 0);
    assert(find_from(l, '#', 0) == l.len());
    assert(full[l.len() as int] == '#');
    assert(find_from(full, '#', 0) == l.len());
    assert(strip_comment_spec(full) =~= l);
    assert(strip_comment_spec(l) =~= l);
}

/// A line that is entirely a comment — whitespace, then the comment
/// marker — yields nothing.
pub proof fn lemma_comment_only_line_blank(l: Seq<char>, k: int)
    requires
        0 <= k < l.len(),
        l[k] == '#',
        forall|j: int| 0 <= j < k ==> is_space_spec(#[trigger] l[j]),
    ensures
        parse_line_spec(l) == DirectiveModel::Blank,
{
    lemma_find_from(l, '#', 0);
    let f = find_from(l, '#', 0);
    assert(f <= k);
    let s = strip_comment_spec(l);
    assert(forall|j: int| 0 <= j < s.len() ==> is_space_spec(#[trigger] s[j]));
    lemma_tokens_all_space(s, 0);
}

} // verus!
