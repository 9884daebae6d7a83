//! How the backend cuts its text into pieces does not matter to the client.
use crate::delta::{
    call_frames, deltas, entered, left, lemma_tag_sizes, tagged, text_frame, text_start_frame,
    text_stop_frame, CLOSE_TAG, OPEN_TAG,
};
use crate::json::{json_parse, JsonTree};
use crate::laws::{called, said};
use crate::mapper::{ChunkView, MapState};
use crate::text::{lemma_first_is_position, lemma_position, occurs_at, position, trimmed};
use vstd::prelude::*;

verus! {

// ---- Cuts ---------------------------------------------------------------------------------

/// No `tag` lies across the border between `a` and `b`.
pub open spec fn uncut(a: Seq<char>, b: Seq<char>, tag: Seq<char>) -> bool {
    forall|i: int| #[trigger]
        occurs_at(a + b, tag, i) ==> i + tag.len() <= a.len() || a.len() <= i
}

proof fn lemma_occurs_first(a: Seq<char>, b: Seq<char>, tag: Seq<char>, i: int)
    requires
        i + tag.len() <= a.len(),
    ensures
        occurs_at(a + b, tag, i) == occurs_at(a, tag, i),
{
    if 0 <= i {
        assert((a + b).subrange(i, i + tag.len()) =~= a.subrange(i, i + tag.len()));
    }
}

proof fn lemma_occurs_second(a: Seq<char>, b: Seq<char>, tag: Seq<char>, i: int)
    requires
        0 <= i,
    ensures
        occurs_at(a + b, tag, a.len() + i) == occurs_at(b, tag, i),
{
    if i + tag.len() <= b.len() {
        assert((a + b).subrange(a.len() + i, a.len() + i + tag.len()) =~= b.subrange(
            i,
            i + tag.len(),
        ));
    }
}

proof fn lemma_position_first(a: Seq<char>, b: Seq<char>, tag: Seq<char>)
    requires
        uncut(a, b, tag),
        tag.len() > 0,
        position(a, tag) is Some,
    ensures
        position(a + b, tag) == position(a, tag),
{
    lemma_position(a, tag);
    let k = position(a, tag)->0;
    lemma_occurs_first(a, b, tag, k);
    assert forall|j: int| 0 <= j < k implies !occurs_at(a + b, tag, j) by {
        if occurs_at(a + b, tag, j) {
            lemma_occurs_first(a, b, tag, j);
        }
    }
    lemma_first_is_position(a + b, tag, k);
}

pub(crate) proof fn lemma_position_second(a: Seq<char>, b: Seq<char>, tag: Seq<char>)
    requires
        uncut(a, b, tag),
        position(a, tag) is None,
    ensures
        position(a + b, tag) == (match position(b, tag) {
            Some(k) => Some(a.len() + k),
            None => None,
        }),
{
    lemma_position(a, tag);
    lemma_position(b, tag);
    lemma_position(a + b, tag);
    assert forall|j: int| occurs_at(a + b, tag, j) implies a.len() <= j && occurs_at(
        b,
        tag,
        j - a.len(),
    ) by {
        if j + tag.len() <= a.len() {
            lemma_occurs_first(a, b, tag, j);
        } else {
            lemma_occurs_second(a, b, tag, j - a.len());
        }
    }
    if let Some(k) = position(b, tag) {
        lemma_occurs_second(a, b, tag, k);
        assert forall|j: int| 0 <= j < a.len() + k implies !occurs_at(a + b, tag, j) by {
            if occurs_at(a + b, tag, j) {
                assert(occurs_at(b, tag, j - a.len()));
            }
        }
        lemma_first_is_position(a + b, tag, a.len() + k);
    }
}

proof fn lemma_uncut_skip(a: Seq<char>, b: Seq<char>, tag: Seq<char>, n: int)
    requires
        uncut(a, b, tag),
        0 <= n <= a.len(),
    ensures
        uncut(a.skip(n), b, tag),
        (a + b).skip(n) == a.skip(n) + b,
{
    let rest = a.skip(n);
    assert((a + b).skip(n) =~= rest + b);
    assert forall|i: int| #[trigger] occurs_at(rest + b, tag, i) implies i + tag.len()
        <= rest.len() || rest.len() <= i by {
        assert((a + b).subrange(n + i, n + i + tag.len()) =~= (rest + b).subrange(
            i,
            i + tag.len(),
        ));
        assert(occurs_at(a + b, tag, n + i));
    }
}

#[verifier::spinoff_prover]
#[verifier::rlimit(40)]
proof fn lemma_pieces(state: MapState, a: Seq<char>, b: Seq<char>)
    requires
        uncut(a, b, OPEN_TAG@),
        uncut(a, b, CLOSE_TAG@),
    ensures
        deltas(state, a + b).0 == deltas(deltas(state, a).0, b).0,
        said(state, a + b) == said(state, a) + said(deltas(state, a).0, b),
        called(state, a + b) == called(state, a) + called(deltas(state, a).0, b),
    decreases a.len(),
{
    lemma_tag_sizes(a);
    lemma_tag_sizes(b);
    lemma_tag_sizes(a + b);
    if a.len() == 0 {
        assert(a + b =~= b);
        assert(said(state, a) + said(state, b) =~= said(state, b));
        assert(called(state, a) + called(state, b) =~= called(state, b));
    } else if !state.in_call {
        match position(a, OPEN_TAG@) {
            Some(k) => {
                let rest = a.skip(k + 11);
                lemma_position_first(a, b, OPEN_TAG@);
                lemma_uncut_skip(a, b, OPEN_TAG@, k + 11);
                lemma_uncut_skip(a, b, CLOSE_TAG@, k + 11);
                lemma_pieces(entered(state), rest, b);
                assert((a + b).take(k) =~= a.take(k));
                assert(said(state, a + b) =~= said(state, a) + said(deltas(state, a).0, b));
            },
            None => {
                lemma_position_second(a, b, OPEN_TAG@);
                if let Some(k) = position(b, OPEN_TAG@) {
                    assert((a + b).take(a.len() + k) =~= a + b.take(k));
                    assert((a + b).skip(a.len() + k + 11) =~= b.skip(k + 11));
                }
                assert(said(state, a + b) =~= said(state, a) + said(deltas(state, a).0, b));
                assert(called(state, a + b) =~= called(state, a) + called(deltas(state, a).0, b));
            },
        }
    } else {
        match position(a, CLOSE_TAG@) {
            Some(k) => {
                let rest = a.skip(k + 12);
                let body = trimmed(state.buffer + a.take(k));
                lemma_position_first(a, b, CLOSE_TAG@);
                lemma_uncut_skip(a, b, OPEN_TAG@, k + 12);
                lemma_uncut_skip(a, b, CLOSE_TAG@, k + 12);
                lemma_pieces(left(state, body), rest, b);
                assert((a + b).take(k) =~= a.take(k));
                assert(said(state, a + b) =~= said(state, a) + said(deltas(state, a).0, b));
                assert(called(state, a + b) =~= called(state, a) + called(deltas(state, a).0, b));
            },
            None => {
                lemma_position_second(a, b, CLOSE_TAG@);
                let held = deltas(state, a).0;
                match position(b, CLOSE_TAG@) {
                    Some(k) => {
                        assert(state.buffer + (a + b).take(a.len() + k) =~= held.buffer + b.take(
                            k,
                        ));
                        assert((a + b).skip(a.len() + k + 12) =~= b.skip(k + 12));
                    },
                    None => {
                        assert(state.buffer + (a + b) =~= held.buffer + b);
                        assert(held.buffer + Seq::empty() =~= held.buffer);
                    },
                }
                assert(said(state, a + b) =~= said(state, a) + said(held, b));
                assert(called(state, a + b) =~= called(state, a) + called(held, b));
            },
        }
    }
}

// ---- Frames, put together -----------------------------------------------------------------

/// A frame: more text for a block, or any other.
pub enum Part {
    Text { block: int, text: Seq<char> },
    Frame(ChunkView),
}

impl Part {
    /// The frame itself.
    pub open spec fn chunk(self) -> ChunkView {
        match self {
            Part::Text { block, text } => text_frame(block, text),
            Part::Frame(f) => f,
        }
    }
}

/// The frames that the parts stand for.
pub open spec fn rendered(parts: Seq<Part>) -> Seq<ChunkView> {
    parts.map_values(|p: Part| p.chunk())
}

/// `done` and one part more, which is put together with the last one where both are text of the
/// same block.
pub open spec fn joined(done: Seq<Part>, part: Part) -> Seq<Part> {
    if done.len() == 0 {
        seq![part]
    } else {
        match (done.last(), part) {
            (Part::Text { block, text }, Part::Text { block: next, text: more }) => if block
                == next {
                done.drop_last().push(Part::Text { block, text: text + more })
            } else {
                done.push(part)
            },
            _ => done.push(part),
        }
    }
}

/// `done` and the parts behind it, with adjacent texts of one block put together.
pub open spec fn merged(done: Seq<Part>, parts: Seq<Part>) -> Seq<Part>
    decreases parts.len(),
{
    if parts.len() == 0 {
        done
    } else {
        merged(joined(done, parts[0]), parts.skip(1))
    }
}

/// The frames are the same once adjacent texts of one block are put together.
pub open spec fn same_merged(a: Seq<ChunkView>, b: Seq<ChunkView>) -> bool {
    exists|p: Seq<Part>, q: Seq<Part>| #[trigger]
        rendered(p) == a && #[trigger] rendered(q) == b && merged(Seq::empty(), p) == merged(
            Seq::empty(),
            q,
        )
}

/// The parts that a tool call becomes.
spec fn call_parts(index: nat, body: Seq<char>, parsed: Option<JsonTree>) -> Seq<Part> {
    if body.len() > 0 && parsed is None {
        seq![Part::Text { block: (2 * index + 1) as int, text: tagged(body) }]
    } else {
        call_frames(index, body, parsed).map_values(|f: ChunkView| Part::Frame(f))
    }
}

/// The parts that `text` becomes.
spec fn parts(state: MapState, text: Seq<char>) -> Seq<Part>
    decreases text.len(),
    via parts_decreases
{
    let block = 2 * state.index;
    if text.len() == 0 {
        Seq::empty()
    } else if !state.in_call {
        match position(text, OPEN_TAG@) {
            Some(k) => {
                let before = if k > 0 {
                    seq![Part::Text { block: block as int, text: text.take(k) }]
                } else {
                    Seq::empty()
                };
                before + seq![Part::Frame(text_stop_frame(block))] + parts(
                    entered(state),
                    text.skip(k + OPEN_TAG@.len()),
                )
            },
            None => seq![Part::Text { block: block as int, text }],
        }
    } else {
        match position(text, CLOSE_TAG@) {
            Some(k) => {
                let body = trimmed(state.buffer + text.take(k));
                call_parts(state.index, body, json_parse(body)) + seq![
                    Part::Frame(text_start_frame(block + 2)),
                ] + parts(left(state, body), text.skip(k + CLOSE_TAG@.len()))
            },
            None => Seq::empty(),
        }
    }
}

#[via_fn]
proof fn parts_decreases(state: MapState, text: Seq<char>) {
    lemma_tag_sizes(text);
}

proof fn lemma_parts(state: MapState, text: Seq<char>)
    ensures
        rendered(parts(state, text)) == deltas(state, text).1,
    decreases text.len(),
{
    lemma_tag_sizes(text);
    if text.len() > 0 {
        if !state.in_call {
            if let Some(k) = position(text, OPEN_TAG@) {
                lemma_parts(entered(state), text.skip(k + 11));
            }
        } else if let Some(k) = position(text, CLOSE_TAG@) {
            let body = trimmed(state.buffer + text.take(k));
            lemma_parts(left(state, body), text.skip(k + 12));
            assert(rendered(call_parts(state.index, body, json_parse(body))) =~= call_frames(
                state.index,
                body,
                json_parse(body),
            ));
        }
    }
    assert(rendered(parts(state, text)) =~= deltas(state, text).1);
}

proof fn lemma_merged_concat(done: Seq<Part>, a: Seq<Part>, b: Seq<Part>)
    ensures
        merged(done, a + b) == merged(merged(done, a), b),
    decreases a.len(),
{
    if a.len() == 0 {
        assert(a + b =~= b);
    } else {
        assert((a + b)[0] == a[0]);
        assert((a + b).skip(1) =~= a.skip(1) + b);
        lemma_merged_concat(joined(done, a[0]), a.skip(1), b);
    }
}

proof fn lemma_joined_texts(done: Seq<Part>, block: int, a: Seq<char>, b: Seq<char>)
    ensures
        joined(joined(done, Part::Text { block, text: a }), Part::Text { block, text: b }) == joined(
            done,
            Part::Text { block, text: a + b },
        ),
{
    let one = joined(done, Part::Text { block, text: a });
    let two = joined(one, Part::Text { block, text: b });
    let whole = joined(done, Part::Text { block, text: a + b });
    if done.len() > 0 {
        if let Part::Text { block: last, text } = done.last() {
            if last == block {
                assert(text + a + b =~= text + (a + b));
            }
        }
        assert(one.drop_last() =~= if one.len() > done.len() {
            done
        } else {
            done.drop_last()
        });
    }
    assert(two =~= whole);
}

proof fn lemma_merged_one(done: Seq<Part>, part: Part)
    ensures
        merged(done, seq![part]) == joined(done, part),
{
    assert(seq![part].skip(1) =~= Seq::empty());
    assert(merged(joined(done, part), Seq::empty()) == joined(done, part));
}

proof fn lemma_merged_pieces(done: Seq<Part>, state: MapState, a: Seq<char>, b: Seq<char>)
    requires
        uncut(a, b, OPEN_TAG@),
        uncut(a, b, CLOSE_TAG@),
    ensures
        merged(done, parts(state, a) + parts(deltas(state, a).0, b)) == merged(
            done,
            parts(state, a + b),
        ),
    decreases a.len(), 0nat,
{
    lemma_tag_sizes(a);
    lemma_tag_sizes(b);
    lemma_tag_sizes(a + b);
    let next = deltas(state, a).0;
    let block = (2 * state.index) as int;
    if a.len() == 0 {
        assert(a + b =~= b);
        assert(parts(state, a) + parts(state, b) =~= parts(state, b));
    } else if !state.in_call {
        match position(a, OPEN_TAG@) {
            Some(k) => {
                let rest = a.skip(k + 11);
                lemma_position_first(a, b, OPEN_TAG@);
                lemma_uncut_skip(a, b, OPEN_TAG@, k + 11);
                lemma_uncut_skip(a, b, CLOSE_TAG@, k + 11);
                assert((a + b).take(k) =~= a.take(k));
                let head = (if k > 0 {
                    seq![Part::Text { block, text: a.take(k) }]
                } else {
                    Seq::empty()
                }) + seq![Part::Frame(text_stop_frame(2 * state.index))];
                lemma_merged_behind(done, head, entered(state), rest, b);
                assert(parts(state, a) + parts(next, b) =~= head + (parts(entered(state), rest)
                    + parts(next, b)));
                assert(parts(state, a + b) =~= head + parts(entered(state), rest + b));
            },
            None => {
                lemma_position_second(a, b, OPEN_TAG@);
                let first = Part::Text { block, text: a };
                let own = seq![first];
                lemma_merged_concat(done, own, parts(state, b));
                lemma_merged_one(done, first);
                if b.len() == 0 {
                    assert(a + b =~= a);
                } else {
                    match position(b, OPEN_TAG@) {
                        Some(k) => {
                            let stop = seq![Part::Frame(text_stop_frame(2 * state.index))];
                            let rest = parts(entered(state), b.skip(k + 11));
                            let tail = stop + rest;
                            let both = Part::Text { block, text: a + b.take(k) };
                            assert((a + b).take(a.len() + k) =~= a + b.take(k));
                            assert((a + b).skip(a.len() + k + 11) =~= b.skip(k + 11));
                            assert(parts(state, a + b) =~= seq![both] + tail);
                            lemma_merged_concat(done, seq![both], tail);
                            lemma_merged_one(done, both);
                            if k > 0 {
                                let more = Part::Text { block, text: b.take(k) };
                                assert(parts(state, b) =~= seq![more] + tail);
                                lemma_merged_concat(joined(done, first), seq![more], tail);
                                lemma_merged_one(joined(done, first), more);
                                lemma_joined_texts(done, block, a, b.take(k));
                            } else {
                                assert(parts(state, b) =~= tail);
                                assert(a + b.take(k) =~= a);
                            }
                        },
                        None => {
                            let more = Part::Text { block, text: b };
                            lemma_merged_one(joined(done, first), more);
                            lemma_merged_one(done, Part::Text { block, text: a + b });
                            lemma_joined_texts(done, block, a, b);
                        },
                    }
                }
            },
        }
    } else {
        match position(a, CLOSE_TAG@) {
            Some(k) => {
                let rest = a.skip(k + 12);
                let body = trimmed(state.buffer + a.take(k));
                lemma_position_first(a, b, CLOSE_TAG@);
                lemma_uncut_skip(a, b, OPEN_TAG@, k + 12);
                lemma_uncut_skip(a, b, CLOSE_TAG@, k + 12);
                assert((a + b).take(k) =~= a.take(k));
                let head = call_parts(state.index, body, json_parse(body)) + seq![
                    Part::Frame(text_start_frame(2 * state.index + 2)),
                ];
                lemma_merged_behind(done, head, left(state, body), rest, b);
                assert(parts(state, a) + parts(next, b) =~= head + (parts(left(state, body), rest)
                    + parts(next, b)));
                assert(parts(state, a + b) =~= head + parts(left(state, body), rest + b));
            },
            None => {
                lemma_position_second(a, b, CLOSE_TAG@);
                assert(parts(state, a) + parts(next, b) =~= parts(next, b));
                match position(b, CLOSE_TAG@) {
                    Some(k) => {
                        assert(state.buffer + (a + b).take(a.len() + k) =~= next.buffer + b.take(
                            k,
                        ));
                        assert((a + b).skip(a.len() + k + 12) =~= b.skip(k + 12));
                    },
                    None => {},
                }
                assert(parts(state, a + b) =~= parts(next, b));
            },
        }
    }
}

proof fn lemma_merged_behind(
    done: Seq<Part>,
    head: Seq<Part>,
    state: MapState,
    a: Seq<char>,
    b: Seq<char>,
)
    requires
        uncut(a, b, OPEN_TAG@),
        uncut(a, b, CLOSE_TAG@),
    ensures
        merged(done, head + (parts(state, a) + parts(deltas(state, a).0, b))) == merged(
            done,
            head + parts(state, a + b),
        ),
    decreases a.len(), 1nat,
{
    let cut = parts(state, a) + parts(deltas(state, a).0, b);
    lemma_merged_concat(done, head, cut);
    lemma_merged_concat(done, head, parts(state, a + b));
    lemma_merged_pieces(merged(done, head), state, a, b);
}

/// It does not matter how the backend cuts its text into pieces, as long as no cut falls within a
/// tag: the state is the same, the client reads the same text and the same calls, and the frames
/// are the same once adjacent texts of one block are put together.
pub proof fn law_pieces(state: MapState, a: Seq<char>, b: Seq<char>)
    requires
        uncut(a, b, OPEN_TAG@),
        uncut(a, b, CLOSE_TAG@),
    ensures
        deltas(state, a + b).0 == deltas(deltas(state, a).0, b).0,
        said(state, a + b) == said(state, a) + said(deltas(state, a).0, b),
        called(state, a + b) == called(state, a) + called(deltas(state, a).0, b),
        same_merged(
            deltas(state, a).1 + deltas(deltas(state, a).0, b).1,
            deltas(state, a + b).1,
        ),
{
    lemma_pieces(state, a, b);
    let next = deltas(state, a).0;
    let cut = parts(state, a) + parts(next, b);
    let whole = parts(state, a + b);
    lemma_parts(state, a);
    lemma_parts(next, b);
    lemma_parts(state, a + b);
    assert(rendered(cut) =~= deltas(state, a).1 + deltas(next, b).1);
    lemma_merged_pieces(Seq::empty(), state, a, b);
    assert(rendered(whole) == deltas(state, a + b).1);
}

} // verus!
