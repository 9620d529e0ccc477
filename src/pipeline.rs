//! The textual pass-pipeline grammar: `anchor(pass, anchor2(pass2, ...), ...)`.
//!
//! A pipeline is kept flat, as a sequence of tokens: `Open(anchor)` starts a nested
//! pipeline, `Pass(name)` is one pass, `Close` ends the innermost open pipeline. The
//! nesting structure and the pass names are exactly this sequence. Text is read by a
//! character-at-a-time state machine (`step`) and written back by `print_toks`.
use vstd::prelude::*;

verus! {

/// A token of a pipeline, as contracts speak of it.
pub enum Tok {
    Open(Seq<char>),
    Pass(Seq<char>),
    Close,
}

/// A token of a pipeline as the library stores it. `id` names a nested pass manager.
pub enum PipelineToken {
    Open { anchor: String, id: u64 },
    Pass { name: String },
    Close,
}

pub open spec fn tok_view(t: PipelineToken) -> Tok {
    match t {
        PipelineToken::Open { anchor, id } => Tok::Open(anchor@),
        PipelineToken::Pass { name } => Tok::Pass(name@),
        PipelineToken::Close => Tok::Close,
    }
}

pub open spec fn toks_view(ts: Seq<PipelineToken>) -> Seq<Tok> {
    ts.map_values(|t: PipelineToken| tok_view(t))
}

/// Characters allowed in pass and operation names.
pub open spec fn is_name_char(c: char) -> bool {
    ('a' <= c && c <= 'z') || ('A' <= c && c <= 'Z') || ('0' <= c && c <= '9') || c == '_'
        || c == '-' || c == '.'
}

pub open spec fn is_name(n: Seq<char>) -> bool {
    n.len() > 0 && forall|k: int| 0 <= k < n.len() ==> is_name_char(#[trigger] n[k])
}

/// Nesting depth after a token sequence.
pub open spec fn depth(ts: Seq<Tok>) -> int
    decreases ts.len(),
{
    if ts.len() == 0 {
        0
    } else {
        let d = depth(ts.drop_last());
        match ts.last() {
            Tok::Open(_) => d + 1,
            Tok::Close => d - 1,
            Tok::Pass(_) => d,
        }
    }
}

/// Every name is well formed and no `Close` comes at depth zero.
pub open spec fn prefix_ok(ts: Seq<Tok>) -> bool {
    forall|k: int|
        0 <= k < ts.len() ==> match #[trigger] ts[k] {
            Tok::Open(n) => is_name(n),
            Tok::Pass(n) => is_name(n),
            Tok::Close => depth(ts.take(k)) > 0,
        }
}

/// A complete pipeline fragment: well formed, with every nested pipeline closed.
pub open spec fn wf_toks(ts: Seq<Tok>) -> bool {
    prefix_ok(ts) && depth(ts) == 0
}

pub open spec fn tok_text(t: Tok) -> Seq<char> {
    match t {
        Tok::Open(n) => n + seq!['('],
        Tok::Pass(n) => n,
        Tok::Close => seq![')'],
    }
}

/// The separator written before token `t` when `prev` comes before it.
pub open spec fn sep(prev: Seq<Tok>, t: Tok) -> Seq<char> {
    if prev.len() > 0 && !(prev.last() is Open) && !(t is Close) {
        seq![',']
    } else {
        Seq::empty()
    }
}

/// The text of a token sequence.
pub open spec fn print_toks(ts: Seq<Tok>) -> Seq<char>
    decreases ts.len(),
{
    if ts.len() == 0 {
        Seq::empty()
    } else {
        print_toks(ts.drop_last()) + sep(ts.drop_last(), ts.last()) + tok_text(ts.last())
    }
}

#[derive(Clone, Copy, PartialEq, Eq, Debug, Structural)]
pub enum Phase {
    /// At the start, or after a comma: a name must come.
    Expect,
    /// After `name(`: a name or `)` must come.
    AfterOpen,
    /// Reading a name.
    InName,
    /// A name was ended by a space.
    NameDone,
    /// After `)`.
    AfterClose,
    Error,
}

pub struct LexState {
    pub toks: Seq<Tok>,
    pub name: Seq<char>,
    pub depth: int,
    pub phase: Phase,
}

pub open spec fn init_state() -> LexState {
    LexState { toks: Seq::empty(), name: Seq::empty(), depth: 0, phase: Phase::Expect }
}

pub open spec fn error_state(s: LexState) -> LexState {
    LexState { phase: Phase::Error, ..s }
}

/// After a name ended by `c`, one of `(`, `,`, `)`.
pub open spec fn end_name(s: LexState, c: char) -> LexState {
    if c == '(' {
        LexState {
            toks: s.toks.push(Tok::Open(s.name)),
            name: Seq::empty(),
            depth: s.depth + 1,
            phase: Phase::AfterOpen,
        }
    } else if c == ',' {
        LexState {
            toks: s.toks.push(Tok::Pass(s.name)),
            name: Seq::empty(),
            depth: s.depth,
            phase: Phase::Expect,
        }
    } else if c == ')' && s.depth > 0 {
        LexState {
            toks: s.toks.push(Tok::Pass(s.name)).push(Tok::Close),
            name: Seq::empty(),
            depth: s.depth - 1,
            phase: Phase::AfterClose,
        }
    } else {
        error_state(s)
    }
}

/// One character of pipeline text.
pub open spec fn step(s: LexState, c: char) -> LexState {
    match s.phase {
        Phase::Error => s,
        Phase::Expect | Phase::AfterOpen => {
            if is_name_char(c) {
                LexState { name: seq![c], phase: Phase::InName, ..s }
            } else if c == ' ' {
                s
            } else if c == ')' && s.phase is AfterOpen && s.depth > 0 {
                LexState {
                    toks: s.toks.push(Tok::Close),
                    depth: s.depth - 1,
                    phase: Phase::AfterClose,
                    ..s
                }
            } else {
                error_state(s)
            }
        },
        Phase::InName => {
            if is_name_char(c) {
                LexState { name: s.name.push(c), ..s }
            } else if c == ' ' {
                LexState { phase: Phase::NameDone, ..s }
            } else {
                end_name(s, c)
            }
        },
        Phase::NameDone => {
            if c == ' ' {
                s
            } else if is_name_char(c) {
                error_state(s)
            } else {
                end_name(s, c)
            }
        },
        Phase::AfterClose => {
            if c == ' ' {
                s
            } else if c == ',' {
                LexState { phase: Phase::Expect, ..s }
            } else if c == ')' && s.depth > 0 {
                LexState { toks: s.toks.push(Tok::Close), depth: s.depth - 1, ..s }
            } else {
                error_state(s)
            }
        },
    }
}

/// The state after reading `text` from `s`.
pub open spec fn run_from(s: LexState, text: Seq<char>) -> LexState
    decreases text.len(),
{
    if text.len() == 0 {
        s
    } else {
        step(run_from(s, text.drop_last()), text.last())
    }
}

/// The tokens of a complete text, if it is one.
pub open spec fn finish(s: LexState) -> Option<Seq<Tok>> {
    match s.phase {
        Phase::InName | Phase::NameDone => if s.depth == 0 {
            Some(s.toks.push(Tok::Pass(s.name)))
        } else {
            None
        },
        Phase::AfterClose => if s.depth == 0 {
            Some(s.toks)
        } else {
            None
        },
        Phase::Expect => if s.toks.len() == 0 {
            Some(s.toks)
        } else {
            None
        },
        _ => None,
    }
}

/// The pipeline fragment that `text` describes: a comma-separated list of passes and
/// nested pipelines, or `None` when the text is not one.
pub open spec fn parse_fragment(text: Seq<char>) -> Option<Seq<Tok>> {
    finish(run_from(init_state(), text))
}

/// `ts` is one nested pipeline anchored on `anchor`: `anchor( ... )`.
pub open spec fn is_anchored(ts: Seq<Tok>, anchor: Seq<char>) -> bool {
    &&& ts.len() >= 2
    &&& ts[0] == Tok::Open(anchor)
    &&& ts.last() is Close
    &&& forall|k: int| 1 <= k < ts.len() ==> depth(#[trigger] ts.take(k)) > 0
}

/// The pipeline that `text` describes when it must be one pipeline anchored on `anchor`.
pub open spec fn parse_anchored(text: Seq<char>, anchor: Seq<char>) -> Option<Seq<Tok>> {
    match parse_fragment(text) {
        Some(ts) => if is_anchored(ts, anchor) {
            Some(ts)
        } else {
            None
        },
        None => None,
    }
}


/// Reading `a + b` is reading `a`, then `b`.
pub proof fn lemma_run_append(s: LexState, a: Seq<char>, b: Seq<char>)
    ensures
        run_from(s, a + b) == run_from(run_from(s, a), b),
    decreases b.len(),
{
    if b.len() == 0 {
        assert(a + b =~= a);
    } else {
        assert((a + b).drop_last() =~= a + b.drop_last());
        assert((a + b).last() == b.last());
        lemma_run_append(s, a, b.drop_last());
    }
}

proof fn lemma_run_one(s: LexState, c: char)
    ensures
        run_from(s, seq![c]) == step(s, c),
{
    let t = seq![c];
    assert(t.drop_last() =~= Seq::<char>::empty());
    assert(t.last() == c);
    assert(run_from(s, t.drop_last()) == s);
}

/// Reading a name where a name may start leaves that name pending.
proof fn lemma_run_name(s: LexState, m: Seq<char>)
    requires
        s.phase is Expect || s.phase is AfterOpen,
        is_name(m),
    ensures
        run_from(s, m) == (LexState { name: m, phase: Phase::InName, ..s }),
    decreases m.len(),
{
    if m.len() == 1 {
        assert(m.drop_last() =~= Seq::<char>::empty());
        assert(seq![m[0]] =~= m);
    } else {
        let p = m.drop_last();
        assert(is_name_char(m[m.len() - 1]));
        assert forall|k: int| 0 <= k < p.len() implies is_name_char(#[trigger] p[k]) by {
            assert(p[k] == m[k]);
        }
        lemma_run_name(s, p);
        assert(p.push(m.last()) =~= m);
    }
}

proof fn lemma_depth_nonneg(ts: Seq<Tok>)
    requires
        prefix_ok(ts),
    ensures
        depth(ts) >= 0,
    decreases ts.len(),
{
    if ts.len() > 0 {
        let p = ts.drop_last();
        lemma_prefix_ok_drop_last(ts);
        lemma_depth_nonneg(p);
        assert(ts.take(ts.len() - 1) =~= p);
        let k = ts.len() - 1;
        match ts[k] {
            Tok::Close => {},
            _ => {},
        }
    }
}

proof fn lemma_prefix_ok_drop_last(ts: Seq<Tok>)
    requires
        prefix_ok(ts),
        ts.len() > 0,
    ensures
        prefix_ok(ts.drop_last()),
{
    let p = ts.drop_last();
    assert forall|k: int| 0 <= k < p.len() implies match #[trigger] p[k] {
        Tok::Open(n) => is_name(n),
        Tok::Pass(n) => is_name(n),
        Tok::Close => depth(p.take(k)) > 0,
    } by {
        assert(p[k] == ts[k]);
        assert(p.take(k) =~= ts.take(k));
        match ts[k] {
            _ => {},
        }
    }
}

proof fn lemma_prefix_ok_push(ts: Seq<Tok>, t: Tok)
    requires
        prefix_ok(ts),
        match t {
            Tok::Open(n) => is_name(n),
            Tok::Pass(n) => is_name(n),
            Tok::Close => depth(ts) > 0,
        },
    ensures
        prefix_ok(ts.push(t)),
{
    let q = ts.push(t);
    assert forall|k: int| 0 <= k < q.len() implies match #[trigger] q[k] {
        Tok::Open(n) => is_name(n),
        Tok::Pass(n) => is_name(n),
        Tok::Close => depth(q.take(k)) > 0,
    } by {
        if k < ts.len() {
            assert(q[k] == ts[k]);
            assert(q.take(k) =~= ts.take(k));
            match ts[k] {
                _ => {},
            }
        } else {
            assert(q.take(k) =~= ts);
        }
    }
}

/// The state reached after reading the text of `ts`.
pub open spec fn expected_state(ts: Seq<Tok>) -> LexState {
    if ts.len() == 0 {
        init_state()
    } else {
        match ts.last() {
            Tok::Pass(n) => LexState {
                toks: ts.drop_last(),
                name: n,
                depth: depth(ts),
                phase: Phase::InName,
            },
            Tok::Open(_) => LexState {
                toks: ts,
                name: Seq::empty(),
                depth: depth(ts),
                phase: Phase::AfterOpen,
            },
            Tok::Close => LexState {
                toks: ts,
                name: Seq::empty(),
                depth: depth(ts),
                phase: Phase::AfterClose,
            },
        }
    }
}

/// From the state before token `t`, reading the separator and the text of `t`.
proof fn lemma_run_token(p: Seq<Tok>, t: Tok)
    requires
        prefix_ok(p.push(t)),
    ensures
        run_from(expected_state(p), sep(p, t) + tok_text(t)) == expected_state(p.push(t)),
{
    let ts = p.push(t);
    let s = expected_state(p);
    assert(ts.drop_last() =~= p);
    assert(ts.last() == t);
    assert(ts[p.len() as int] == t);
    assert(ts.take(p.len() as int) =~= p);
    lemma_prefix_ok_drop_last(ts);
    lemma_depth_nonneg(p);
    if p.len() > 0 {
        assert(p.drop_last().push(p.last()) =~= p);
    }
    // the state after the separator: a name or `)` may come
    let s1 = run_from(s, sep(p, t));
    if sep(p, t).len() > 0 {
        lemma_run_one(s, ',');
    } else {
        assert(run_from(s, Seq::<char>::empty()) == s);
    }
    lemma_run_append(s, sep(p, t), tok_text(t));
    match t {
        Tok::Open(m) => {
            assert(is_name(m));
            assert(s1.phase is Expect || s1.phase is AfterOpen);
            assert(s1.toks == p);
            lemma_run_name(s1, m);
            lemma_run_append(s1, m, seq!['(']);
            lemma_run_one(run_from(s1, m), '(');
        },
        Tok::Pass(m) => {
            assert(is_name(m));
            assert(s1.phase is Expect || s1.phase is AfterOpen);
            assert(s1.toks == p);
            lemma_run_name(s1, m);
        },
        Tok::Close => {
            assert(depth(p) > 0);
            lemma_run_one(s1, ')');
        },
    }
}

/// Reading the text of a well-formed prefix reaches its expected state.
proof fn lemma_print_run(ts: Seq<Tok>)
    requires
        prefix_ok(ts),
    ensures
        run_from(init_state(), print_toks(ts)) == expected_state(ts),
    decreases ts.len(),
{
    if ts.len() > 0 {
        let p = ts.drop_last();
        let t = ts.last();
        lemma_prefix_ok_drop_last(ts);
        lemma_print_run(p);
        assert(p.push(t) =~= ts);
        assert(print_toks(ts) =~= print_toks(p) + (sep(p, t) + tok_text(t)));
        lemma_run_append(init_state(), print_toks(p), sep(p, t) + tok_text(t));
        lemma_run_token(p, t);
    }
}

/// A well-formed fragment reads back from its text.
pub proof fn lemma_print_parse(ts: Seq<Tok>)
    requires
        wf_toks(ts),
    ensures
        parse_fragment(print_toks(ts)) == Some(ts),
{
    lemma_print_run(ts);
    lemma_depth_nonneg(ts);
    if ts.len() > 0 {
        lemma_prefix_ok_drop_last(ts);
        lemma_depth_nonneg(ts.drop_last());
        assert(ts.drop_last().push(ts.last()) =~= ts);
    }
}

/// What a reading state knows about the tokens read so far.
pub open spec fn lex_inv(s: LexState) -> bool {
    !(s.phase is Error) ==> {
        &&& prefix_ok(s.toks)
        &&& depth(s.toks) == s.depth
        &&& s.depth >= 0
        &&& (s.phase is InName || s.phase is NameDone) ==> is_name(s.name)
        &&& s.phase is AfterOpen ==> s.depth > 0
    }
}

proof fn lemma_step_inv(s: LexState, c: char)
    requires
        lex_inv(s),
    ensures
        lex_inv(step(s, c)),
{
    let r = step(s, c);
    if !(s.phase is Error) && !(r.phase is Error) {
        if (s.phase is InName || s.phase is NameDone) && !is_name_char(c) && c != ' ' {
            // a name ends
            if c == '(' {
                lemma_prefix_ok_push(s.toks, Tok::Open(s.name));
            } else if c == ',' {
                lemma_prefix_ok_push(s.toks, Tok::Pass(s.name));
            } else {
                lemma_prefix_ok_push(s.toks, Tok::Pass(s.name));
                let q = s.toks.push(Tok::Pass(s.name));
                assert(q.drop_last() =~= s.toks);
                lemma_prefix_ok_push(q, Tok::Close);
                assert(q.push(Tok::Close).drop_last() =~= q);
            }
            assert(s.toks.push(Tok::Open(s.name)).drop_last() =~= s.toks);
            assert(s.toks.push(Tok::Pass(s.name)).drop_last() =~= s.toks);
        } else if c == ')' && !(s.phase is InName) && !(s.phase is NameDone) {
            lemma_prefix_ok_push(s.toks, Tok::Close);
            assert(s.toks.push(Tok::Close).drop_last() =~= s.toks);
        } else if s.phase is InName && is_name_char(c) {
            let n = s.name.push(c);
            assert forall|k: int| 0 <= k < n.len() implies is_name_char(#[trigger] n[k]) by {
                if k < s.name.len() {
                    assert(n[k] == s.name[k]);
                }
            }
        } else if is_name_char(c) {
            assert(seq![c][0] == c);
        }
    }
}

proof fn lemma_run_inv(text: Seq<char>)
    ensures
        lex_inv(run_from(init_state(), text)),
    decreases text.len(),
{
    if text.len() == 0 {
        assert(prefix_ok(Seq::<Tok>::empty()));
    } else {
        lemma_run_inv(text.drop_last());
        lemma_step_inv(run_from(init_state(), text.drop_last()), text.last());
    }
}

/// Whatever the reader accepts is a well-formed fragment.
pub proof fn lemma_parse_wf(text: Seq<char>)
    requires
        parse_fragment(text) is Some,
    ensures
        wf_toks(parse_fragment(text)->0),
{
    let s = run_from(init_state(), text);
    lemma_run_inv(text);
    if s.phase is InName || s.phase is NameDone {
        lemma_prefix_ok_push(s.toks, Tok::Pass(s.name));
        assert(s.toks.push(Tok::Pass(s.name)).drop_last() =~= s.toks);
    }
}

/// Parsing pipeline text, printing what was parsed and parsing that again gives the same
/// pipeline: the same nesting structure and the same pass names.
pub proof fn lemma_parse_print_parse(text: Seq<char>)
    requires
        parse_fragment(text) is Some,
    ensures
        parse_fragment(print_toks(parse_fragment(text)->0)) == parse_fragment(text),
{
    lemma_parse_wf(text);
    lemma_print_parse(parse_fragment(text)->0);
}

/// The same for a pipeline that must be anchored on `anchor`.
pub proof fn lemma_parse_print_parse_anchored(text: Seq<char>, anchor: Seq<char>)
    requires
        parse_anchored(text, anchor) is Some,
    ensures
        parse_anchored(print_toks(parse_anchored(text, anchor)->0), anchor) == parse_anchored(
            text,
            anchor,
        ),
{
    lemma_parse_print_parse(text);
}

/// Append the text of a pipeline to `out`: names, `(`, `)` and a comma between siblings.
pub fn print_pipeline(ts: &Vec<PipelineToken>, out: &mut String)
    ensures
        final(out)@ == old(out)@ + print_toks(toks_view(ts@)),
{
    let ghost o = out@;
    let ghost tv = toks_view(ts@);
    let mut i: usize = 0;
    proof {
        reveal_strlit("(");
        reveal_strlit(")");
        reveal_strlit(",");
        assert(tv.take(0) =~= Seq::<Tok>::empty());
        assert(o + Seq::<char>::empty() =~= o);
    }
    while i < ts.len()
        invariant
            i <= ts@.len(),
            tv == toks_view(ts@),
            tv.len() == ts@.len(),
            out@ == o + print_toks(tv.take(i as int)),
            "("@ == seq!['('],
            ")"@ == seq![')'],
            ","@ == seq![','],
        decreases ts@.len() - i,
    {
        let ghost before = out@;
        assert(tv.take(i + 1).drop_last() =~= tv.take(i as int));
        assert(tv.take(i + 1).last() == tv[i as int]);
        let is_close = match &ts[i] {
            PipelineToken::Close => true,
            _ => false,
        };
        let prev_open = if i > 0 {
            match &ts[i - 1] {
                PipelineToken::Open { .. } => true,
                _ => false,
            }
        } else {
            false
        };
        if i > 0 && !prev_open && !is_close {
            out.append(",");
        }
        assert(out@ == before + sep(tv.take(i as int), tv[i as int]));
        let ghost mid = out@;
        match &ts[i] {
            PipelineToken::Open { anchor, id } => {
                out.append(anchor.as_str());
                out.append("(");
            },
            PipelineToken::Pass { name } => {
                out.append(name.as_str());
            },
            PipelineToken::Close => {
                out.append(")");
            },
        }
        assert(out@ =~= mid + tok_text(tv[i as int]));
        assert(out@ =~= o + print_toks(tv.take(i + 1)));
        i = i + 1;
    }
    assert(tv.take(ts@.len() as int) =~= tv);
}

/// Whether a character may appear in a name.
pub fn name_char(c: char) -> (r: bool)
    ensures
        r == is_name_char(c),
{
    ('a' <= c && c <= 'z') || ('A' <= c && c <= 'Z') || ('0' <= c && c <= '9') || c == '_'
        || c == '-' || c == '.'
}

/// Parse a comma-separated list of passes and nested pipelines.
pub fn parse_pipeline_fragment(text: &str) -> (r: Option<Vec<PipelineToken>>)
    ensures
        r is None <==> parse_fragment(text@) is None,
        r matches Some(v) ==> parse_fragment(text@) == Some(toks_view(v@)),
{
    let n = text.unicode_len();
    let mut toks: Vec<PipelineToken> = Vec::new();
    let mut phase = Phase::Expect;
    let mut depth: usize = 0;
    let mut ns: usize = 0;
    let mut ne: usize = 0;
    let mut i: usize = 0;
    proof {
        assert(text@.take(0) =~= Seq::<char>::empty());
        assert(toks_view(toks@) =~= Seq::<Tok>::empty());
        assert(text@.subrange(0, 0) =~= Seq::<char>::empty());
    }
    while i < n
        invariant
            n == text@.len(),
            i <= n,
            ns <= ne <= i,
            depth <= i,
            (phase is InName) ==> ne == i,
            (phase is Expect || phase is AfterOpen || phase is AfterClose) ==> ns == ne,
            run_from(init_state(), text@.take(i as int)) == (LexState {
                toks: toks_view(toks@),
                name: text@.subrange(ns as int, ne as int),
                depth: depth as int,
                phase,
            }),
        decreases n - i,
    {
        let c = text.get_char(i);
        let ghost s = run_from(init_state(), text@.take(i as int));
        assert(text@.take(i + 1).drop_last() =~= text@.take(i as int));
        assert(text@.take(i + 1).last() == c);
        let ghost ts0 = toks@;
        let ghost nm = text@.subrange(ns as int, ne as int);
        let is_nc = name_char(c);
        match phase {
            Phase::Error => {},
            Phase::Expect | Phase::AfterOpen => {
                if is_nc {
                    ns = i;
                    ne = i + 1;
                    phase = Phase::InName;
                    assert(text@.subrange(i as int, i + 1) =~= seq![c]);
                } else if c == ' ' {
                } else if c == ')' && phase == Phase::AfterOpen && depth > 0 {
                    toks.push(PipelineToken::Close);
                    depth = depth - 1;
                    phase = Phase::AfterClose;
                    assert(toks_view(toks@) =~= toks_view(ts0).push(Tok::Close));
                } else {
                    phase = Phase::Error;
                }
            },
            Phase::InName | Phase::NameDone => {
                if is_nc && phase == Phase::InName {
                    ne = i + 1;
                    assert(text@.subrange(ns as int, i + 1) =~= text@.subrange(
                        ns as int,
                        i as int,
                    ).push(c));
                } else if c == ' ' {
                    phase = Phase::NameDone;
                } else if is_nc {
                    phase = Phase::Error;
                } else if c == '(' {
                    let anchor = String::from_str(text.substring_char(ns, ne));
                    toks.push(PipelineToken::Open { anchor, id: 0 });
                    depth = depth + 1;
                    phase = Phase::AfterOpen;
                    ns = i + 1;
                    ne = i + 1;
                    assert(toks_view(toks@) =~= toks_view(ts0).push(Tok::Open(nm)));
                } else if c == ',' {
                    let name = String::from_str(text.substring_char(ns, ne));
                    toks.push(PipelineToken::Pass { name });
                    assert(toks_view(toks@) =~= toks_view(ts0).push(Tok::Pass(nm)));
                    phase = Phase::Expect;
                    ns = i + 1;
                    ne = i + 1;
                } else if c == ')' && depth > 0 {
                    let name = String::from_str(text.substring_char(ns, ne));
                    toks.push(PipelineToken::Pass { name });
                    toks.push(PipelineToken::Close);
                    assert(toks_view(toks@) =~= toks_view(ts0).push(Tok::Pass(nm)).push(Tok::Close));
                    depth = depth - 1;
                    phase = Phase::AfterClose;
                    ns = i + 1;
                    ne = i + 1;
                } else {
                    phase = Phase::Error;
                }
            },
            Phase::AfterClose => {
                if c == ' ' {
                } else if c == ',' {
                    phase = Phase::Expect;
                } else if c == ')' && depth > 0 {
                    toks.push(PipelineToken::Close);
                    depth = depth - 1;
                    assert(toks_view(toks@) =~= toks_view(ts0).push(Tok::Close));
                } else {
                    phase = Phase::Error;
                }
            },
        }
        proof {
            if ns == ne {
                assert(text@.subrange(ns as int, ne as int) =~= Seq::<char>::empty());
                assert(nm.len() == 0 ==> nm =~= Seq::<char>::empty());
            }
        }
        i = i + 1;
    }
    assert(text@.take(n as int) =~= text@);
    match phase {
        Phase::InName | Phase::NameDone => {
            if depth == 0 {
                let name = String::from_str(text.substring_char(ns, ne));
                let ghost ts0 = toks@;
                toks.push(PipelineToken::Pass { name });
                assert(toks_view(toks@) =~= toks_view(ts0).push(Tok::Pass(text@.subrange(ns as int, ne as int))));
                Some(toks)
            } else {
                None
            }
        },
        Phase::AfterClose => if depth == 0 {
            Some(toks)
        } else {
            None
        },
        Phase::Expect => if toks.len() == 0 {
            Some(toks)
        } else {
            None
        },
        _ => None,
    }
}

} // verus!
