//! Decoding ANSI-escaped lines into runs of text and the style each run is
//! shown in.
//!
//! The style is kept as plain state: the style layers laid on since the
//! last reset (style definitions from SGR codes, and foreground and
//! background colors), each later layer over the earlier ones, and the
//! hyperlink of the last OSC 8 sequence. The state carries over from one
//! line to the next.

use vstd::prelude::*;
use crate::ansi::{
    actions_view, after_carriage_return, opt_string_view, parse_sgr_codes, sgr_actions, sgr_actions_from, sgr_codes,
    spec_osc_link, tokenize_cuts_char, tokens_from, tokens_view, try_ansi_tokenize, osc_link,
    visible_after_carriage_return, AnsiToken, SgrAction, SgrActionView, TokenView,
};
use crate::color_parse::{copy_chars, lemma_split_on_nonempty, split_chars, split_on};
use crate::strutil::{chars_of, string_from_chars};

verus! {

/// The style state of a decoder.
#[derive(Debug, Clone, PartialEq, Eq)]
pub struct DecodeState {
    /// The style layers since the last reset, oldest first (never a reset).
    pub layers: Vec<SgrAction>,
    /// The hyperlink, if any.
    pub link: Option<String>,
}

/// The plain view of a decoder state.
pub struct StateView {
    pub layers: Seq<SgrActionView>,
    pub link: Option<Seq<char>>,
}

impl View for DecodeState {
    type V = StateView;

    open spec fn view(&self) -> StateView {
        StateView { layers: actions_view(self.layers@), link: opt_string_view(self.link) }
    }
}

/// A run of text and the style it is shown in: `None` for no style.
#[derive(Debug, Clone, PartialEq, Eq)]
pub struct DecodedSpan {
    pub text: String,
    pub style: Option<DecodeState>,
}

/// The plain view of a span.
pub open spec fn span_view(s: DecodedSpan) -> (Seq<char>, Option<StateView>) {
    (
        s.text@,
        match s.style {
            Some(st) => Some(st@),
            None => None,
        },
    )
}

/// The views of a sequence of spans.
pub open spec fn spans_view(v: Seq<DecodedSpan>) -> Seq<(Seq<char>, Option<StateView>)> {
    Seq::new(v.len(), |i: int| span_view(v[i]))
}

/// The state with no style and no link.
pub open spec fn null_state() -> StateView {
    StateView { layers: Seq::empty(), link: None }
}

/// The state after the actions of one SGR sequence: a reset clears the
/// layers and the link, any other action is laid on top.
pub open spec fn apply_actions(st: StateView, actions: Seq<SgrActionView>) -> StateView
    decreases actions.len(),
{
    if actions.len() == 0 {
        st
    } else {
        let before = apply_actions(st, actions.drop_last());
        match actions.last() {
            SgrActionView::Reset => null_state(),
            a => StateView { layers: before.layers.push(a), ..before },
        }
    }
}

/// The state after one escape token: an OSC 8 payload sets or clears the
/// link, an SGR sequence applies its actions; other tokens change nothing.
pub open spec fn apply_token(st: StateView, t: TokenView) -> StateView {
    if t.0.len() > 0 {
        st
    } else if t.2 is Some {
        match spec_osc_link(t.2->0) {
            Some(l) => StateView { link: l, ..st },
            None => st,
        }
    } else if t.1 is Some {
        apply_actions(st, sgr_actions_from(sgr_codes(split_on(t.1->0, ';')), 0))
    } else {
        st
    }
}

/// Whether a state shows no style.
pub open spec fn is_null_state(st: StateView) -> bool {
    st.layers.len() == 0 && st.link is None
}

/// The spans of the tokens `ts` from state `st`, and the state after them:
/// each run of plain text is shown in the current state (`None` when it is
/// null); escape tokens change the state.
pub open spec fn decode_tokens(ts: Seq<TokenView>, st: StateView) -> (Seq<(Seq<char>, Option<StateView>)>, StateView)
    decreases ts.len(),
{
    if ts.len() == 0 {
        (Seq::empty(), st)
    } else {
        let (spans, mid) = decode_tokens(ts.drop_last(), st);
        let t = ts.last();
        if t.0.len() > 0 {
            (spans.push((t.0, if is_null_state(mid) { None } else { Some(mid) })), mid)
        } else {
            (spans, apply_token(mid, t))
        }
    }
}

/// Decoding a line from state `st`: only the text after its last carriage
/// return is read.
pub open spec fn spec_decode_line(line: Seq<char>, st: StateView) -> (Seq<(Seq<char>, Option<StateView>)>, StateView) {
    decode_tokens(tokens_from(after_carriage_return(line), 0, 0), st)
}

fn copy_state(st: &DecodeState) -> (r: DecodeState)
    ensures
        r@ == st@,
{
    let mut layers: Vec<SgrAction> = Vec::new();
    let mut i: usize = 0;
    while i < st.layers.len()
        invariant
            i <= st.layers@.len(),
            layers@ =~= st.layers@.take(i as int),
        decreases st.layers@.len() - i,
    {
        let a = st.layers[i];
        layers.push(a);
        i = i + 1;
        assert(layers@ =~= st.layers@.take(i as int));
    }
    assert(layers@ =~= st.layers@);
    let link = match &st.link {
        Some(l) => Some(l.clone()),
        None => None,
    };
    DecodeState { layers, link }
}

fn apply_sgr(st: &mut DecodeState, actions: &Vec<SgrAction>)
    ensures
        final(st)@ == apply_actions(old(st)@, actions_view(actions@)),
{
    let ghost s0 = st@;
    let mut i: usize = 0;
    assert(actions_view(actions@).take(0) =~= Seq::<SgrActionView>::empty());
    while i < actions.len()
        invariant
            i <= actions@.len(),
            st@ == apply_actions(s0, actions_view(actions@).take(i as int)),
        decreases actions@.len() - i,
    {
        let a = actions[i];
        proof {
            let t = actions_view(actions@).take(i + 1);
            assert(t.drop_last() =~= actions_view(actions@).take(i as int));
            assert(t.last() == a@);
        }
        match a {
            SgrAction::Reset => {
                st.layers = Vec::new();
                st.link = None;
                assert(st@.layers =~= Seq::<SgrActionView>::empty());
            },
            _ => {
                let ghost before = st@;
                st.layers.push(a);
                assert(st@.layers =~= before.layers.push(a@));
            },
        }
        i = i + 1;
    }
    assert(actions_view(actions@).take(actions@.len() as int) =~= actions_view(actions@));
}

fn apply_escape(st: &mut DecodeState, t: &AnsiToken)
    requires
        t.plain@.len() == 0,
    ensures
        final(st)@ == apply_token(old(st)@, t@),
{
    if let Some(osc) = &t.osc {
        match osc_link(osc.as_str()) {
            Some(l) => {
                st.link = l;
            },
            None => {},
        }
    } else if let Some(sgr) = &t.sgr {
        let codes = parse_sgr_codes(sgr.as_str());
        let actions = sgr_actions(codes.as_slice());
        apply_sgr(st, &actions);
    }
}

fn is_null(st: &DecodeState) -> (b: bool)
    ensures
        b == is_null_state(st@),
{
    st.layers.len() == 0 && st.link.is_none()
}

/// Decodes one line, continuing from `state`: the runs of plain text, each
/// with the style it is shown in, and `state` updated by the escape
/// sequences; see [`spec_decode_line`]. `None`, with `state` unchanged,
/// exactly where tokenizing the visible part would cut a character in two.
pub fn decode_line(state: &mut DecodeState, line: &str) -> (r: Option<Vec<DecodedSpan>>)
    ensures
        r is None <==> ({
            let v = after_carriage_return(line@);
            tokenize_cuts_char(v, 0) || v.len() == usize::MAX
        }),
        r is None ==> final(state)@ == old(state)@,
        r matches Some(spans) ==> spans_view(spans@) == spec_decode_line(line@, old(state)@).0 && final(state)@
            == spec_decode_line(line@, old(state)@).1,
{
    let visible = visible_after_carriage_return(line);
    let tokens = match try_ansi_tokenize(visible.as_str()) {
        Some(t) => t,
        None => {
            return None;
        },
    };
    let ghost ts = tokens_view(tokens@);
    let ghost s0 = state@;
    let mut spans: Vec<DecodedSpan> = Vec::new();
    let mut i: usize = 0;
    assert(ts.take(0) =~= Seq::<TokenView>::empty());
    assert(spans_view(spans@) =~= Seq::<(Seq<char>, Option<StateView>)>::empty());
    while i < tokens.len()
        invariant
            i <= tokens@.len(),
            ts == tokens_view(tokens@),
            spans_view(spans@) == decode_tokens(ts.take(i as int), s0).0,
            state@ == decode_tokens(ts.take(i as int), s0).1,
        decreases tokens@.len() - i,
    {
        let t = &tokens[i];
        proof {
            let pre = ts.take(i + 1);
            assert(pre.drop_last() =~= ts.take(i as int));
            assert(pre.last() == t@);
        }
        if t.plain.as_str().unicode_len() > 0 {
            let style = if is_null(state) { None } else { Some(copy_state(state)) };
            let span = DecodedSpan { text: t.plain.clone(), style };
            let ghost before = spans_view(spans@);
            spans.push(span);
            assert(spans_view(spans@) =~= before.push(span_view(span)));
        } else {
            apply_escape(state, t);
        }
        i = i + 1;
    }
    assert(ts.take(ts.len() as int) =~= ts);
    Some(spans)
}

/// A line without the `\r` of a `\r\n` ending.
pub open spec fn strip_cr(l: Seq<char>) -> Seq<char> {
    if l.len() > 0 && l.last() == '\r' {
        l.drop_last()
    } else {
        l
    }
}

/// The lines of a text as `str::lines` gives them: split at `\n`, a `\r`
/// before the `\n` dropped, and no empty line after a final `\n`.
pub open spec fn text_lines(s: Seq<char>) -> Seq<Seq<char>> {
    let pieces = split_on(s, '\n');
    let full = pieces.take(pieces.len() - 1).map_values(|l: Seq<char>| strip_cr(l));
    if pieces.last().len() == 0 {
        full
    } else {
        full.push(pieces.last())
    }
}

/// Whether decoding line `l` would cut a character in two.
pub open spec fn line_cuts(l: Seq<char>) -> bool {
    tokenize_cuts_char(after_carriage_return(l), 0) || after_carriage_return(l).len() == usize::MAX
}

/// Decoding the lines `ls` in turn from state `st`: the spans of each line
/// and the state after the last.
pub open spec fn decode_all(ls: Seq<Seq<char>>, st: StateView) -> (Seq<Seq<(Seq<char>, Option<StateView>)>>, StateView)
    decreases ls.len(),
{
    if ls.len() == 0 {
        (Seq::empty(), st)
    } else {
        let (done, mid) = decode_all(ls.drop_last(), st);
        let (spans, after) = spec_decode_line(ls.last(), mid);
        (done.push(spans), after)
    }
}

impl DecodeState {
    /// The state with no style and no link.
    pub fn new() -> (st: DecodeState)
        ensures
            st@ == null_state(),
    {
        let st = DecodeState { layers: Vec::new(), link: None };
        assert(st@.layers =~= Seq::<SgrActionView>::empty());
        st
    }
}

/// Decodes multi-line text line by line, continuing from `state`; see
/// [`decode_all`] and [`text_lines`]. `None` exactly where one of the lines
/// cannot be decoded ([`decode_line`]).
pub fn decode(state: &mut DecodeState, terminal_text: &str) -> (r: Option<Vec<Vec<DecodedSpan>>>)
    ensures
        r is None <==> exists|i: int| 0 <= i < text_lines(terminal_text@).len() && line_cuts(
            #[trigger] text_lines(terminal_text@)[i],
        ),
        r matches Some(v) ==> v@.len() == text_lines(terminal_text@).len() && (forall|i: int|
            0 <= i < v@.len() ==> spans_view((#[trigger] v@[i])@) == decode_all(text_lines(terminal_text@), old(state)@).0[i])
            && final(state)@ == decode_all(text_lines(terminal_text@), old(state)@).1,
{
    let cs = chars_of(terminal_text);
    let (mut pieces, last) = split_chars(cs.as_slice(), '\n');
    let ghost all = split_on(terminal_text@, '\n');
    let ghost ls = text_lines(terminal_text@);
    proof {
        lemma_split_on_nonempty(terminal_text@, '\n');
    }
    let nfull = pieces.len();
    let mut lines: Vec<String> = Vec::new();
    let mut i: usize = 0;
    while i < nfull
        invariant
            i <= nfull,
            nfull == pieces@.len(),
            nfull + 1 == all.len(),
            forall|j: int| 0 <= j < nfull ==> (#[trigger] pieces@[j])@ == all[j],
            lines@.len() == i,
            forall|j: int| 0 <= j < i ==> (#[trigger] lines@[j])@ == strip_cr(all[j]),
        decreases nfull - i,
    {
        let p = &pieces[i];
        let k = p.len();
        let s = if k > 0 && p[k - 1] == '\r' {
            let kept = copy_chars(&p.as_slice()[0..k - 1]);
            assert(p@.subrange(0, k - 1) =~= p@.drop_last());
            string_from_chars(&kept)
        } else {
            string_from_chars(p)
        };
        lines.push(s);
        i = i + 1;
    }
    if last.len() > 0 {
        lines.push(string_from_chars(&last));
    }
    proof {
        assert(lines@.len() == ls.len());
        assert forall|j: int| 0 <= j < ls.len() implies (#[trigger] lines@[j])@ == ls[j] by {
            if j < nfull {
                assert(ls[j] == all.take(all.len() - 1).map_values(|l: Seq<char>| strip_cr(l))[j]);
            }
        }
    }
    let ghost s0 = state@;
    let mut out: Vec<Vec<DecodedSpan>> = Vec::new();
    let mut j: usize = 0;
    assert(ls.take(0) =~= Seq::<Seq<char>>::empty());
    while j < lines.len()
        invariant
            j <= lines@.len(),
            lines@.len() == ls.len(),
            ls == text_lines(terminal_text@),
            forall|t: int| 0 <= t < ls.len() ==> (#[trigger] lines@[t])@ == ls[t],
            forall|t: int| 0 <= t < j ==> !line_cuts(#[trigger] ls[t]),
            out@.len() == j,
            decode_all(ls.take(j as int), s0).0.len() == j,
            forall|t: int| 0 <= t < j ==> spans_view((#[trigger] out@[t])@) == decode_all(ls.take(j as int), s0).0[t],
            state@ == decode_all(ls.take(j as int), s0).1,
        decreases lines@.len() - j,
    {
        let ghost pre = ls.take(j as int);
        let ghost mid = state@;
        match decode_line(state, lines[j].as_str()) {
            Some(spans) => {
                let ghost old_out = out@;
                proof {
                    let nx = ls.take(j + 1);
                    assert(nx.drop_last() =~= pre);
                    assert(nx.last() == ls[j as int]);
                }
                let ghost sv = spans_view(spans@);
                out.push(spans);
                proof {
                    let nx = ls.take(j + 1);
                    let d = decode_all(nx, s0);
                    let dp = decode_all(pre, s0);
                    assert(d.0 == dp.0.push(sv));
                    assert forall|t: int| 0 <= t < j + 1 implies spans_view((#[trigger] out@[t])@) == d.0[t] by {
                        if t < j {
                            assert(out@[t] == old_out[t]);
                        }
                    }
                }
                j = j + 1;
            },
            None => {
                assert(line_cuts(ls[j as int]));
                return None;
            },
        }
    }
    assert(ls.take(ls.len() as int) =~= ls);
    Some(out)
}

} // verus!
