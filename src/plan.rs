//! The plan produced by the planning call: finding its JSON text inside an
//! optional code fence, and reading it.

use vstd::prelude::*;
use crate::json::{JsonValue, JsonView, elements, lemma_array_view, opt_text, opt_view, read_opt_text};
use crate::message::opt_str;
use crate::text::{chars_of, ends_with, is_ws, is_ws_char, slice_text, starts_with, trim_end_of, trim_start_of, trim_text, trimmed, views};

verus! {

/// The code fence marker.
pub open spec fn fence() -> Seq<char> {
    "```"@
}

/// Whether a character may be part of a fence's language tag (`json`,
/// `json5`, `c++`): anything but whitespace and the brace that opens an object.
pub open spec fn is_tag_char(c: char) -> bool {
    !is_ws(c) && c != '{'
}

/// A text without a leading language tag.
pub open spec fn skip_tag(s: Seq<char>) -> Seq<char>
    decreases s.len(),
{
    if s.len() > 0 && is_tag_char(s[0]) {
        skip_tag(s.drop_first())
    } else {
        s
    }
}

/// The JSON text of a reply: the trimmed text, or, when it opens with a code
/// fence, what lies between the fence (after its language tag, if any) and
/// the closing fence, trimmed. A fence that is never closed gives nothing.
pub open spec fn unfenced(text: Seq<char>) -> Option<Seq<char>> {
    let t = trimmed(text);
    let f = fence();
    if t.len() >= f.len() && t.subrange(0, f.len() as int) == f {
        let inner = trimmed(t.subrange(f.len() as int, t.len() as int));
        if inner.len() >= f.len() && inner.subrange(inner.len() - f.len(), inner.len() as int) == f {
            Some(trimmed(skip_tag(inner.subrange(0, inner.len() - f.len()))))
        } else {
            None
        }
    } else {
        Some(t)
    }
}

fn is_tag_letter(c: char) -> (r: bool)
    ensures
        r == is_tag_char(c),
{
    !is_ws_char(c) && c != '{'
}

/// Finds the JSON text of a reply, inside an optional code fence.
pub fn extract_json(text: &str) -> (r: Option<String>)
    ensures
        opt_str(r) == unfenced(text@),
{
    proof {
        reveal_strlit("```");
    }
    let t = trim_text(text);
    let cs = chars_of(t.as_str());
    let f = chars_of("```");
    if !starts_with(cs.as_slice(), f.as_slice()) {
        return Some(t);
    }
    let rest = slice_text(cs.as_slice(), 3, cs.len());
    let inner = trim_text(rest.as_str());
    let ic = chars_of(inner.as_str());
    if !ends_with(ic.as_slice(), f.as_slice()) {
        return None;
    }
    let bc = chars_of(slice_text(ic.as_slice(), 0, ic.len() - 3).as_str());
    let mut k: usize = 0;
    assert(bc@.subrange(0, bc@.len() as int) =~= bc@);
    while k < bc.len() && is_tag_letter(bc[k])
        invariant
            k <= bc@.len(),
            skip_tag(bc@) == skip_tag(bc@.subrange(k as int, bc@.len() as int)),
        decreases bc@.len() - k,
    {
        proof {
            let a = bc@.subrange(k as int, bc@.len() as int);
            assert(a.drop_first() =~= bc@.subrange(k + 1, bc@.len() as int));
        }
        k = k + 1;
    }
    let body = slice_text(bc.as_slice(), k, bc.len());
    Some(trim_text(body.as_str()))
}

proof fn lemma_trim_start_ws(w: Seq<char>, s: Seq<char>)
    requires
        forall|k: int| 0 <= k < w.len() ==> is_ws(#[trigger] w[k]),
    ensures
        trim_start_of(w + s) == trim_start_of(s),
    decreases w.len(),
{
    if w.len() > 0 {
        let t = w.drop_first();
        assert forall|k: int| 0 <= k < t.len() implies is_ws(#[trigger] t[k]) by {
            assert(t[k] == w[k + 1]);
        }
        assert((w + s).drop_first() =~= t + s);
        assert((w + s)[0] == w[0]);
        lemma_trim_start_ws(t, s);
    } else {
        assert(w + s =~= s);
    }
}

proof fn lemma_trim_end_ws(s: Seq<char>, w: Seq<char>)
    requires
        forall|k: int| 0 <= k < w.len() ==> is_ws(#[trigger] w[k]),
    ensures
        trim_end_of(s + w) == trim_end_of(s),
    decreases w.len(),
{
    if w.len() > 0 {
        let t = w.drop_last();
        assert forall|k: int| 0 <= k < t.len() implies is_ws(#[trigger] t[k]) by {
            assert(t[k] == w[k]);
        }
        assert((s + w).drop_last() =~= s + t);
        assert((s + w).last() == w[w.len() - 1]);
        lemma_trim_end_ws(s, t);
    } else {
        assert(s + w =~= s);
    }
}

proof fn lemma_skip_tag(tag: Seq<char>, s: Seq<char>)
    requires
        forall|k: int| 0 <= k < tag.len() ==> is_tag_char(#[trigger] tag[k]),
        s.len() == 0 || !is_tag_char(s[0]),
    ensures
        skip_tag(tag + s) == s,
    decreases tag.len(),
{
    if tag.len() > 0 {
        let t = tag.drop_first();
        assert forall|k: int| 0 <= k < t.len() implies is_tag_char(#[trigger] t[k]) by {
            assert(t[k] == tag[k + 1]);
        }
        assert((tag + s).drop_first() =~= t + s);
        assert((tag + s)[0] == tag[0]);
        lemma_skip_tag(t, s);
    } else {
        assert(tag + s =~= s);
    }
}

/// A JSON object's text wrapped in a code fence, with or without a language
/// tag and with any whitespace around it, is found as the same text as when
/// it stands alone.
pub proof fn lemma_fence_transparent(
    j: Seq<char>,
    tag: Seq<char>,
    a: Seq<char>,
    w1: Seq<char>,
    w2: Seq<char>,
    d: Seq<char>,
)
    requires
        j.len() > 0,
        j[0] == '{',
        !is_ws(j.last()),
        forall|k: int| 0 <= k < tag.len() ==> is_tag_char(#[trigger] tag[k]),
        forall|k: int| 0 <= k < a.len() ==> is_ws(#[trigger] a[k]),
        forall|k: int| 0 <= k < w1.len() ==> is_ws(#[trigger] w1[k]),
        forall|k: int| 0 <= k < w2.len() ==> is_ws(#[trigger] w2[k]),
        forall|k: int| 0 <= k < d.len() ==> is_ws(#[trigger] d[k]),
    ensures
        unfenced(a + (fence() + tag + w1 + j + w2 + fence()) + d) == unfenced(j),
        unfenced(j) == Some(j),
{
    reveal_strlit("```");
    let core = fence() + tag + w1 + j + w2 + fence();
    lemma_fence_core(j, tag, w1, w2);
    assert(core[0] == '`');
    assert(core.last() == '`');
    lemma_trim_start_ws(a, core + d);
    assert((core + d)[0] == '`');
    assert(trim_start_of(core + d) == core + d);
    lemma_trim_end_ws(core, d);
    assert(trim_start_of(core) == core);
    assert(trim_end_of(core) == core);
    assert(a + core + d =~= a + (core + d));
    assert(trimmed(a + core + d) == trimmed(core));
}

proof fn lemma_fence_core(j: Seq<char>, tag: Seq<char>, w1: Seq<char>, w2: Seq<char>)
    requires
        j.len() > 0,
        j[0] == '{',
        !is_ws(j.last()),
        forall|k: int| 0 <= k < tag.len() ==> is_tag_char(#[trigger] tag[k]),
        forall|k: int| 0 <= k < w1.len() ==> is_ws(#[trigger] w1[k]),
        forall|k: int| 0 <= k < w2.len() ==> is_ws(#[trigger] w2[k]),
    ensures
        unfenced(fence() + tag + w1 + j + w2 + fence()) == unfenced(j),
        unfenced(j) == Some(j),
{
    reveal_strlit("```");
    let f = fence();
    assert(f.len() == 3);
    assert(f[0] == '`' && f[2] == '`');
    // The text alone.
    assert(trim_start_of(j) == j);
    assert(trim_end_of(j) == j);
    assert(j.len() < 3 || j.subrange(0, 3)[0] != f[0]);
    // The fenced text.
    let text = f + tag + w1 + j + w2 + f;
    assert(text[0] == '`');
    assert(text.last() == '`');
    assert(trim_start_of(text) == text);
    assert(trim_end_of(text) == text);
    assert(text.subrange(0, 3) =~= f);
    let rest = text.subrange(3, text.len() as int);
    assert(rest =~= tag + (w1 + j + w2 + f));
    let inner = trimmed(rest);
    let body0 = w1 + j + w2;
    if tag.len() > 0 {
        assert(!is_ws(rest[0])) by {
            assert(rest[0] == tag[0]);
            assert(is_tag_char(tag[0]));
        }
        assert(trim_start_of(rest) == rest);
    } else {
        assert(rest =~= w1 + (j + w2 + f));
        lemma_trim_start_ws(w1, j + w2 + f);
        assert((j + w2 + f)[0] == '{');
        assert(trim_start_of(j + w2 + f) == j + w2 + f);
    }
    let ts = trim_start_of(rest);
    assert(ts.last() == '`');
    assert(trim_end_of(ts) == ts);
    assert(inner == ts);
    assert(inner.subrange(inner.len() - 3, inner.len() as int) =~= f);
    let body = inner.subrange(0, inner.len() - 3);
    lemma_trim_end_ws(j, w2);
    assert((j + w2)[0] == '{');
    assert(trim_start_of(j + w2) == j + w2);
    if tag.len() > 0 {
        assert(body =~= tag + body0);
        if w1.len() > 0 {
            assert(!is_tag_char(body0[0])) by {
                assert(body0[0] == w1[0]);
                assert(is_ws(w1[0]));
            }
        } else {
            assert(body0[0] == j[0]);
            assert(!is_tag_char(body0[0]));
        }
        lemma_skip_tag(tag, body0);
        assert(body0 =~= w1 + (j + w2));
        lemma_trim_start_ws(w1, j + w2);
        assert(trimmed(skip_tag(body)) == j);
    } else {
        assert(body =~= j + w2);
        assert(Seq::<char>::empty() + body =~= body);
        assert(!is_tag_char(body[0]));
        lemma_skip_tag(tag, body);
        assert(trimmed(skip_tag(body)) == j);
    }
}

// ---------------------------------------------------------------------------
// Reading the plan
// ---------------------------------------------------------------------------

/// What the planning call decided.
#[derive(Clone, Debug)]
pub struct Plan {
    pub summary: Option<String>,
    /// Files to read for context, in order.
    pub paths_to_read: Option<Vec<String>>,
    /// The steps to take, in order.
    pub todos: Option<Vec<String>>,
}

pub ghost struct PlanView {
    pub summary: Option<Seq<char>>,
    pub paths_to_read: Option<Seq<Seq<char>>>,
    pub todos: Option<Seq<Seq<char>>>,
}

pub open spec fn opt_texts(o: Option<Vec<String>>) -> Option<Seq<Seq<char>>> {
    match o {
        Some(v) => Some(views(v@)),
        None => None,
    }
}

impl View for Plan {
    type V = PlanView;

    open spec fn view(&self) -> PlanView {
        PlanView {
            summary: opt_str(self.summary),
            paths_to_read: opt_texts(self.paths_to_read),
            todos: opt_texts(self.todos),
        }
    }
}

/// Reading an optional list of texts: absent or null is none, an array of
/// strings is those texts, anything else does not fit (outer `None`).
pub open spec fn text_list(v: Option<JsonView>) -> Option<Option<Seq<Seq<char>>>> {
    match v {
        None => Some(None),
        Some(JsonView::Null) => Some(None),
        Some(JsonView::Array(xs)) => if forall|k: int| 0 <= k < xs.len() ==> (#[trigger] xs[k]) is Str {
            Some(Some(Seq::new(xs.len(), |k: int| xs[k]->Str_0)))
        } else {
            None
        },
        _ => None,
    }
}

/// A plan: an object with an optional text `summary` and optional lists of
/// texts `paths_to_read` and `todos`.
pub open spec fn plan_of(v: JsonView) -> Option<PlanView> {
    let s = opt_text(v.field("summary"@));
    let p = text_list(v.field("paths_to_read"@));
    let t = text_list(v.field("todos"@));
    if v is Object && s is Some && p is Some && t is Some {
        Some(PlanView { summary: s->0, paths_to_read: p->0, todos: t->0 })
    } else {
        None
    }
}

fn read_text_list(v: Option<&JsonValue>) -> (r: Option<Option<Vec<String>>>)
    ensures
        match r {
            Some(o) => text_list(opt_view(v)) == Some(opt_texts(o)),
            None => text_list(opt_view(v)) is None,
        },
{
    match v {
        None => Some(None),
        Some(JsonValue::Null) => Some(None),
        Some(JsonValue::Array(xs)) => {
            proof {
                lemma_array_view(*xs);
            }
            let ghost xv = elements(xs@);
            let mut out: Vec<String> = Vec::new();
            let mut i: usize = 0;
            while i < xs.len()
                invariant
                    i <= xs@.len(),
                    xv == elements(xs@),
                    opt_view(v) == Some(JsonView::Array(xv)),
                    out@.len() == i,
                    forall|k: int| 0 <= k < i ==> xv[k] == JsonView::Str(#[trigger] out@[k]@),
                decreases xs@.len() - i,
            {
                match &xs[i] {
                    JsonValue::Str(t) => out.push(t.clone()),
                    _ => {
                        assert(!(xv[i as int] is Str));
                        return None;
                    },
                }
                i = i + 1;
            }
            proof {
                assert forall|k: int| 0 <= k < xv.len() implies (#[trigger] xv[k]) is Str by {
                    assert(xv[k] == JsonView::Str(out@[k]@));
                }
                assert(views(out@) =~= Seq::new(xv.len(), |k: int| xv[k]->Str_0));
            }
            Some(Some(out))
        },
        _ => None,
    }
}

/// Reads a plan object.
pub fn read_plan(v: &JsonValue) -> (r: Option<Plan>)
    ensures
        match r {
            Some(p) => plan_of(v@) == Some(p@),
            None => plan_of(v@) is None,
        },
{
    if !(v matches JsonValue::Object(_)) {
        return None;
    }
    let summary = match read_opt_text(v.get("summary")) {
        Some(s) => s,
        None => return None,
    };
    let paths_to_read = match read_text_list(v.get("paths_to_read")) {
        Some(p) => p,
        None => return None,
    };
    let todos = match read_text_list(v.get("todos")) {
        Some(t) => t,
        None => return None,
    };
    Some(Plan { summary, paths_to_read, todos })
}

} // verus!
