//! The annotation extractor: finds evaluation annotations in comment text.
//!
//! An annotation is the marker `%eval` followed by one space and a payload
//! that runs up to, and does not include, the next `]` (or to the end of the
//! text where no `]` follows). Annotations are found from left to right; the
//! search for the next one resumes where the previous payload ended, so a
//! marker inside a payload is part of that payload.

use vstd::prelude::*;
use vstd::std_specs::iter::IteratorSpec;

verus! {

/// The marker that opens an annotation, with its trailing space.
pub open spec fn marker() -> Seq<char> {
    seq!['%', 'e', 'v', 'a', 'l', ' ']
}

/// Whether the marker stands in `text` at index `i`.
pub open spec fn marker_at(text: Seq<char>, i: int) -> bool {
    &&& 0 <= i
    &&& i + 6 <= text.len()
    &&& text.subrange(i, i + 6) == marker()
}

/// Whether a `]` stands in `text` at index `j`.
pub open spec fn bracket_at(text: Seq<char>, j: int) -> bool {
    0 <= j < text.len() && text[j] == ']'
}

/// The number of characters from index `from` up to the next `]`, or up to
/// the end of `text` where there is none.
pub open spec fn payload_len(text: Seq<char>, from: int) -> nat
    decreases text.len() - from,
{
    if 0 <= from < text.len() && text[from] != ']' {
        1 + payload_len(text, from + 1)
    } else {
        0
    }
}

/// A payload ends within the text.
pub proof fn lemma_payload_len_bound(text: Seq<char>, from: int)
    requires
        0 <= from <= text.len(),
    ensures
        from + payload_len(text, from) <= text.len(),
    decreases text.len() - from,
{
    if from < text.len() && text[from] != ']' {
        lemma_payload_len_bound(text, from + 1);
    }
}

/// The payloads of the annotations found in `text` from index `i` on.
pub open spec fn payloads_from(text: Seq<char>, i: int) -> Seq<Seq<char>>
    decreases text.len() - i,
{
    if i < 0 || i >= text.len() {
        Seq::empty()
    } else if marker_at(text, i) {
        let end = i + 6 + payload_len(text, i + 6);
        proof {
            lemma_payload_len_bound(text, i + 6);
        }
        seq![text.subrange(i + 6, end)] + payloads_from(text, end)
    } else {
        payloads_from(text, i + 1)
    }
}

/// The payloads of all annotations in `text`, in order of appearance.
pub open spec fn eval_payloads(text: Seq<char>) -> Seq<Seq<char>> {
    payloads_from(text, 0)
}

/// A payload ends at the first `]` at or after its start, or at the end of
/// the text.
pub proof fn lemma_payload_len_is(text: Seq<char>, from: int, end: int)
    requires
        0 <= from <= end <= text.len(),
        forall|j: int| from <= j < end ==> text[j] != ']',
        end == text.len() || text[end] == ']',
    ensures
        from + payload_len(text, from) == end,
    decreases end - from,
{
    if from < end {
        lemma_payload_len_is(text, from + 1, end);
    }
}

/// A payload holds no `]`, and a payload that stops short of the end of the
/// text stops at a `]`.
pub proof fn lemma_payload_stops_at_bracket(text: Seq<char>, from: int)
    requires
        0 <= from <= text.len(),
    ensures
        forall|j: int| from <= j < from + payload_len(text, from) ==> text[j] != ']',
        from + payload_len(text, from) < text.len() ==> text[from + payload_len(text, from)]
            == ']',
    decreases text.len() - from,
{
    if from < text.len() && text[from] != ']' {
        lemma_payload_stops_at_bracket(text, from + 1);
    }
}

proof fn lemma_none_from(text: Seq<char>, i: int)
    requires
        forall|p: int| i <= p ==> !marker_at(text, p),
    ensures
        payloads_from(text, i).len() == 0,
    decreases text.len() - i,
{
    if 0 <= i < text.len() {
        lemma_none_from(text, i + 1);
    }
}

proof fn lemma_some_from(text: Seq<char>, i: int, p: int)
    requires
        0 <= i <= p,
        marker_at(text, p),
    ensures
        payloads_from(text, i).len() > 0,
    decreases p - i,
{
    if !marker_at(text, i) {
        lemma_some_from(text, i + 1, p);
    }
}

/// A text yields no payload exactly when the marker stands nowhere in it.
pub proof fn lemma_no_payload_iff_no_marker(text: Seq<char>)
    ensures
        eval_payloads(text).len() == 0 <==> forall|p: int| !marker_at(text, p),
{
    if forall|p: int| !marker_at(text, p) {
        lemma_none_from(text, 0);
    } else {
        let p = choose|p: int| marker_at(text, p);
        lemma_some_from(text, 0, p);
    }
}

proof fn lemma_found_from(text: Seq<char>, i: int, p: int, end: int)
    requires
        0 <= i <= p,
        marker_at(text, p),
        end == p + 6 + payload_len(text, p + 6),
        forall|k: int|
            i <= k < p && marker_at(text, k) ==> exists|j: int|
                k + 6 <= j < p && bracket_at(text, j),
    ensures
        payloads_from(text, i).contains(text.subrange(p + 6, end)),
    decreases p - i,
{
    let wanted = text.subrange(p + 6, end);
    if i == p {
        assert(payloads_from(text, i)[0] == wanted);
    } else if marker_at(text, i) {
        let closing = choose|j: int| i + 6 <= j < p && bracket_at(text, j);
        let stop = i + 6 + payload_len(text, i + 6);
        lemma_payload_stops_at_bracket(text, i + 6);
        assert(stop <= closing);
        lemma_found_from(text, stop, p, end);
        let rest = payloads_from(text, stop);
        let at = choose|n: int| 0 <= n < rest.len() && rest[n] == wanted;
        assert(payloads_from(text, i)[at + 1] == wanted);
    } else {
        lemma_found_from(text, i + 1, p, end);
    }
}

/// An annotation that no earlier one swallows is extracted as written: where
/// the marker stands at index `p`, a `]` stands at index `end` with none
/// between the marker and it, and every marker before `p` is followed by a
/// `]` before `p`, the characters between the marker and `end` are one of the
/// payloads.
pub proof fn lemma_annotation_is_extracted(text: Seq<char>, p: int, end: int)
    requires
        marker_at(text, p),
        p + 6 <= end < text.len(),
        text[end] == ']',
        forall|j: int| p + 6 <= j < end ==> text[j] != ']',
        forall|k: int|
            0 <= k < p && marker_at(text, k) ==> exists|j: int|
                k + 6 <= j < p && bracket_at(text, j),
    ensures
        eval_payloads(text).contains(text.subrange(p + 6, end)),
{
    lemma_payload_len_is(text, p + 6, end);
    lemma_found_from(text, 0, p, end);
}

/// A text made of any text, the marker, a payload, a `]` and any text.
pub open spec fn annotated(before: Seq<char>, payload: Seq<char>, after: Seq<char>) -> Seq<
    char,
> {
    before + marker() + payload + seq![']'] + after
}

proof fn lemma_annotated_parts(before: Seq<char>, payload: Seq<char>, after: Seq<char>)
    ensures
        ({
            let text = annotated(before, payload, after);
            let p = before.len() as int;
            let end = p + 6 + payload.len();
            &&& text.len() == end + 1 + after.len()
            &&& text.subrange(0, p) == before
            &&& text.subrange(p, p + 6) == marker()
            &&& text.subrange(p + 6, end) == payload
            &&& text[end] == ']'
        }),
{
    let text = annotated(before, payload, after);
    let p = before.len() as int;
    assert(text.subrange(0, p) =~= before);
    assert(text.subrange(p, p + 6) =~= marker());
    assert(text.subrange(p + 6, p + 6 + payload.len()) =~= payload);
}

proof fn lemma_closed_before(text: Seq<char>, before: Seq<char>, p: int)
    requires
        p == before.len(),
        p + 6 <= text.len(),
        text.subrange(0, p) == before,
        text.subrange(p, p + 6) == marker(),
        forall|k: int|
            marker_at(before, k) ==> exists|j: int| k + 6 <= j && bracket_at(before, j),
    ensures
        forall|k: int|
            0 <= k < p && marker_at(text, k) ==> exists|j: int|
                k + 6 <= j < p && bracket_at(text, j),
{
    assert forall|k: int| 0 <= k < p && marker_at(text, k) implies exists|j: int|
        k + 6 <= j < p && bracket_at(text, j) by {
        let found = text.subrange(k, k + 6);
        if k + 6 > p {
            let m = p - k;
            assert(found[m] == text[p]);
            assert(text.subrange(p, p + 6)[0] == text[p]);
            assert(marker()[0] == '%');
            assert(marker()[1] != '%' && marker()[2] != '%' && marker()[3] != '%' && marker()[4]
                != '%' && marker()[5] != '%');
            assert(false);
        }
        assert(before.subrange(k, k + 6) =~= found);
        assert(marker_at(before, k));
        let j = choose|j: int| k + 6 <= j && bracket_at(before, j);
        assert(before[j] == text[j]);
        assert(bracket_at(text, j));
    }
}

/// The same for a text given in parts: a payload without `]` that is written
/// between the marker and a `]` is extracted exactly, whatever follows,
/// provided that every annotation in the text before it is closed by a `]`.
pub proof fn lemma_enclosed_payload_is_extracted(
    before: Seq<char>,
    payload: Seq<char>,
    after: Seq<char>,
)
    requires
        forall|j: int| !bracket_at(payload, j),
        forall|k: int|
            marker_at(before, k) ==> exists|j: int| k + 6 <= j && bracket_at(before, j),
    ensures
        eval_payloads(annotated(before, payload, after)).contains(payload),
{
    let text = annotated(before, payload, after);
    let p = before.len() as int;
    let end = p + 6 + payload.len();
    lemma_annotated_parts(before, payload, after);
    lemma_closed_before(text, before, p);
    assert forall|j: int| p + 6 <= j < end implies text[j] != ']' by {
        assert(text.subrange(p + 6, end)[j - p - 6] == text[j]);
        assert(!bracket_at(payload, j - p - 6));
    }
    lemma_annotation_is_extracted(text, p, end);
}

/// The characters of `text`, in order.
fn text_chars(text: &str) -> (chars: Vec<char>)
    ensures
        chars@ == text@,
{
    broadcast use vstd::string::group_string_axioms;

    let mut chars: Vec<char> = Vec::new();
    for c in it: text.chars()
        invariant
            it.seq() == text@,
            chars@ == it.seq().take(it.index()),
    {
        chars.push(c);
    }
    chars
}

/// Tests whether the marker stands at index `i`.
fn starts_marker(chars: &Vec<char>, i: usize) -> (found: bool)
    requires
        i <= chars.len(),
    ensures
        found == marker_at(chars@, i as int),
{
    if chars.len() - i < 6 {
        return false;
    }
    let found = chars[i] == '%' && chars[i + 1] == 'e' && chars[i + 2] == 'v' && chars[i + 3]
        == 'a' && chars[i + 4] == 'l' && chars[i + 5] == ' ';
    proof {
        let part = chars@.subrange(i as int, i + 6);
        if found {
            assert(part =~= marker());
        } else {
            assert(part[0] == chars@[i as int]);
            assert(part[1] == chars@[i + 1]);
            assert(part[2] == chars@[i + 2]);
            assert(part[3] == chars@[i + 3]);
            assert(part[4] == chars@[i + 4]);
            assert(part[5] == chars@[i + 5]);
        }
    }
    found
}

/// Reads the payload that starts at index `from`: returns it together with
/// the index at which it ends.
fn read_payload(chars: &Vec<char>, from: usize) -> (r: (String, usize))
    requires
        from <= chars.len(),
    ensures
        r.1 == from + payload_len(chars@, from as int),
        from <= r.1 <= chars.len(),
        r.0@ == chars@.subrange(from as int, r.1 as int),
{
    let mut payload = String::new();
    let mut j = from;
    while j < chars.len() && chars[j] != ']'
        invariant
            from <= j <= chars.len(),
            payload@ == chars@.subrange(from as int, j as int),
            payload_len(chars@, from as int) == (j - from) + payload_len(chars@, j as int),
        decreases chars.len() - j,
    {
        payload.push(chars[j]);
        j += 1;
        assert(payload@ =~= chars@.subrange(from as int, j as int));
    }
    (payload, j)
}

/// Extracts the payload of every evaluation annotation in `text`, from left
/// to right.
pub fn extract(text: &str) -> (evals: Vec<String>)
    ensures
        evals.deep_view() == eval_payloads(text@),
{
    let chars = text_chars(text);
    let mut evals: Vec<String> = Vec::new();
    let mut i: usize = 0;
    assert(evals.deep_view() =~= Seq::<Seq<char>>::empty());
    while i < chars.len()
        invariant
            i <= chars.len(),
            chars@ == text@,
            evals.deep_view() + payloads_from(chars@, i as int) == eval_payloads(text@),
        decreases chars.len() - i,
    {
        if starts_marker(&chars, i) {
            let ghost before = evals.deep_view();
            let (payload, end) = read_payload(&chars, i + 6);
            evals.push(payload);
            assert(evals.deep_view() =~= before + seq![payload@]);
            assert(before + (seq![payload@] + payloads_from(chars@, end as int)) =~= (before
                + seq![payload@]) + payloads_from(chars@, end as int));
            i = end;
        } else {
            i += 1;
        }
    }
    assert(evals.deep_view() + Seq::<Seq<char>>::empty() =~= evals.deep_view());
    evals
}

} // verus!
