//! Path sanitization: normalizes and validates untrusted path strings so no
//! combination of parent-directory markers or absolute prefixes can escape
//! the storage root.
//!
//! The model: a path string is split on `/` into segments; empty and
//! current-directory segments are discarded, a parent-directory segment pops
//! the last kept segment and fails if none is left, and any other segment is
//! kept. The result is the kept segments joined with `/`; the empty string
//! denotes the root.

use vstd::prelude::*;

use crate::error::Error;

verus! {

/// The current-directory marker, as a segment.
pub open spec fn current_dir_segment() -> Seq<char> {
    seq!['.']
}

/// Whether a segment is discarded outright: empty (from repeated, leading or
/// trailing separators) or the current-directory marker.
pub open spec fn is_skip_segment(seg: Seq<char>) -> bool {
    seg.len() == 0 || seg == current_dir_segment()
}

/// Whether a segment is the parent-directory marker.
pub open spec fn is_parent_segment(seg: Seq<char>) -> bool {
    seg == seq!['.', '.']
}

/// The segments of `s`, split on `/`. Splitting never yields an empty list:
/// the empty string has the single empty segment.
pub open spec fn split_segments(s: Seq<char>) -> Seq<Seq<char>>
    decreases s.len(),
{
    if s.len() == 0 {
        seq![Seq::<char>::empty()]
    } else if s.last() == '/' {
        split_segments(s.drop_last()).push(Seq::empty())
    } else {
        let r = split_segments(s.drop_last());
        r.update(r.len() - 1, r.last().push(s.last()))
    }
}

/// One normalization step: what a single segment does to the stack of kept
/// segments. `None` is the escape attempt: a parent-directory marker against
/// an empty stack.
pub open spec fn apply_segment_spec(stack: Seq<Seq<char>>, seg: Seq<char>) -> Option<
    Seq<Seq<char>>,
> {
    if is_parent_segment(seg) {
        if stack.len() == 0 {
            None
        } else {
            Some(stack.drop_last())
        }
    } else if is_skip_segment(seg) {
        Some(stack)
    } else {
        Some(stack.push(seg))
    }
}

/// The stack of kept segments after processing `segs` in order, or `None` if
/// some parent-directory marker was evaluated against an empty stack.
pub open spec fn normalize_segments(segs: Seq<Seq<char>>) -> Option<Seq<Seq<char>>>
    decreases segs.len(),
{
    if segs.len() == 0 {
        Some(Seq::empty())
    } else {
        match normalize_segments(segs.drop_last()) {
            None => None,
            Some(stack) => apply_segment_spec(stack, segs.last()),
        }
    }
}

/// The kept segments joined with `/`; the empty stack joins to the empty
/// string, which denotes the root.
pub open spec fn join_segments(stack: Seq<Seq<char>>) -> Seq<char>
    decreases stack.len(),
{
    if stack.len() == 0 {
        Seq::empty()
    } else if stack.len() == 1 {
        stack[0]
    } else {
        join_segments(stack.drop_last()) + seq!['/'] + stack.last()
    }
}

/// What sanitization returns on `s`: the normalized path, or `None` on an
/// escape attempt.
pub open spec fn sanitize_spec(s: Seq<char>) -> Option<Seq<char>> {
    match normalize_segments(split_segments(s)) {
        None => None,
        Some(stack) => Some(join_segments(stack)),
    }
}

/// Whether a segment is free of the separator.
pub open spec fn segment_has_no_sep(seg: Seq<char>) -> bool {
    forall|k: int| 0 <= k < seg.len() ==> seg[k] != '/'
}

/// Whether a segment is one that normalization keeps: non-empty, not a
/// marker, and free of the separator.
pub open spec fn is_normal_segment(seg: Seq<char>) -> bool {
    &&& seg.len() > 0
    &&& !is_skip_segment(seg)
    &&& !is_parent_segment(seg)
    &&& segment_has_no_sep(seg)
}

/// Whether every segment of a stack is one normalization keeps.
pub open spec fn is_normal_stack(stack: Seq<Seq<char>>) -> bool {
    forall|k: int| 0 <= k < stack.len() ==> is_normal_segment(#[trigger] stack[k])
}

/// Splitting yields at least one segment.
pub proof fn lemma_split_segments_len(s: Seq<char>)
    ensures
        split_segments(s).len() >= 1,
    decreases s.len(),
{
    if s.len() > 0 {
        lemma_split_segments_len(s.drop_last());
    }
}

/// How splitting grows when one character is appended: a separator closes
/// the open segment and opens an empty one; any other character extends the
/// open segment.
pub proof fn lemma_split_append(s: Seq<char>, c: char)
    ensures
        c == '/' ==> split_segments(s.push(c)) == split_segments(s).push(Seq::<char>::empty()),
        c != '/' ==> split_segments(s.push(c)) == split_segments(s).update(
            split_segments(s).len() - 1,
            split_segments(s).last().push(c),
        ),
{
    lemma_split_segments_len(s);
    assert(s.push(c).drop_last() =~= s);
    assert(s.push(c).last() == c);
}

/// No segment of a split contains the separator.
pub proof fn lemma_split_segments_no_sep(s: Seq<char>)
    ensures
        forall|k: int|
            0 <= k < split_segments(s).len() ==> segment_has_no_sep(
                #[trigger] split_segments(s)[k],
            ),
    decreases s.len(),
{
    if s.len() == 0 {
    } else {
        lemma_split_segments_no_sep(s.drop_last());
        lemma_split_segments_len(s.drop_last());
    }
}

/// Normalization keeps only normal segments, as long as the input segments
/// are separator-free.
pub proof fn lemma_normalize_keeps_normal(segs: Seq<Seq<char>>)
    requires
        forall|k: int| 0 <= k < segs.len() ==> segment_has_no_sep(#[trigger] segs[k]),
        normalize_segments(segs) is Some,
    ensures
        is_normal_stack(normalize_segments(segs)->Some_0),
    decreases segs.len(),
{
    if segs.len() == 0 {
    } else {
        assert(forall|k: int|
            0 <= k < segs.drop_last().len() ==> segment_has_no_sep(
                #[trigger] segs.drop_last()[k],
            ));
        lemma_normalize_keeps_normal(segs.drop_last());
        let inner = normalize_segments(segs.drop_last())->Some_0;
        let seg = segs.last();
        if !is_parent_segment(seg) && !is_skip_segment(seg) {
            assert(segment_has_no_sep(seg));
            assert(normalize_segments(segs)->Some_0 == inner.push(seg));
            assert forall|k: int|
                0 <= k < inner.push(seg).len() implies is_normal_segment(
                #[trigger] inner.push(seg)[k],
            ) by {
                if k < inner.len() {
                    assert(inner.push(seg)[k] == inner[k]);
                }
            }
        }
    }
}

/// Once normalization has failed, no further segments can make it succeed.
pub proof fn lemma_none_extends(a: Seq<Seq<char>>, b: Seq<Seq<char>>)
    requires
        normalize_segments(a) is None,
    ensures
        normalize_segments(a + b) is None,
    decreases b.len(),
{
    if b.len() == 0 {
        assert(a + b =~= a);
    } else {
        lemma_none_extends(a, b.drop_last());
        assert((a + b).drop_last() =~= a + b.drop_last());
        assert((a + b).len() > 0);
    }
}

/// The views of a stack of kept segments held as strings.
pub open spec fn seg_views(stack: Seq<String>) -> Seq<Seq<char>> {
    stack.map_values(|s: String| s@)
}

/// Once normalization has failed on the segments closed before position
/// `i`, it fails on the whole string.
proof fn lemma_none_propagates(s: Seq<char>, i: int)
    requires
        0 <= i <= s.len(),
        normalize_segments(split_segments(s.take(i)).drop_last()) is None,
    ensures
        normalize_segments(split_segments(s)) is None,
    decreases s.len() - i,
{
    lemma_split_segments_len(s.take(i));
    if i == s.len() {
        assert(s.take(i) =~= s);
    } else {
        assert(s.take(i + 1) =~= s.take(i).push(s[i]));
        lemma_split_append(s.take(i), s[i]);
        if s[i] == '/' {
            assert(split_segments(s.take(i + 1)).drop_last() =~= split_segments(s.take(i)));
        } else {
            assert(split_segments(s.take(i + 1)).drop_last() =~= split_segments(
                s.take(i),
            ).drop_last());
        }
        lemma_none_propagates(s, i + 1);
    }
}

/// Feed one closed segment to the stack of kept segments; `false` reports
/// the escape attempt, leaving the stack unchanged.
fn apply_segment(stack: &mut Vec<String>, seg: &str) -> (ok: bool)
    ensures
        match apply_segment_spec(seg_views(old(stack)@), seg@) {
            Some(st) => ok && seg_views(final(stack)@) == st,
            None => !ok && final(stack)@ == old(stack)@,
        },
{
    let len = seg.unicode_len();
    if len == 0 {
        return true;
    }
    if len == 1 && seg.get_char(0) == '.' {
        proof {
            assert(seg@ =~= current_dir_segment());
        }
        return true;
    }
    if len == 2 && seg.get_char(0) == '.' && seg.get_char(1) == '.' {
        proof {
            assert(seg@ =~= seq!['.', '.']);
        }
        if stack.len() == 0 {
            return false;
        }
        let _ = stack.pop();
        proof {
            assert(seg_views(stack@) =~= seg_views(old(stack)@).drop_last());
        }
        return true;
    }
    proof {
        assert(!is_skip_segment(seg@)) by {
            if seg@ == current_dir_segment() {
                assert(seg@.len() == 1 && seg@[0] == '.');
            }
        }
        assert(!is_parent_segment(seg@)) by {
            if seg@ == seq!['.', '.'] {
                assert(seg@.len() == 2 && seg@[0] == '.' && seg@[1] == '.');
            }
        }
    }
    stack.push(seg.to_owned());
    proof {
        assert(seg_views(stack@) =~= seg_views(old(stack)@).push(seg@));
    }
    true
}

/// Sanitize a path, ensuring it does not escape the base directory: decoded
/// percent-escapes aside, this discards root and current-directory markers,
/// resolves parent-directory markers against the kept segments, and joins
/// what is left. Failure is reported as a permission error so it never
/// reveals filesystem structure.
pub fn sanitize_path(raw: &str) -> (r: Result<String, Error>)
    ensures
        match r {
            Ok(p) => sanitize_spec(raw@) == Some(p@),
            Err(e) => sanitize_spec(raw@) is None && e == Error::InvalidPermissions,
        },
{
    let n = raw.unicode_len();
    let mut stack: Vec<String> = Vec::new();
    let mut seg_start: usize = 0;
    let mut i: usize = 0;
    proof {
        assert(raw@.take(0) =~= Seq::<char>::empty());
        assert(split_segments(raw@.take(0)).drop_last() =~= Seq::<Seq<char>>::empty());
        assert(seg_views(stack@) =~= Seq::<Seq<char>>::empty());
        assert(raw@.subrange(0, 0) =~= Seq::<char>::empty());
    }
    while i < n
        invariant
            0 <= seg_start <= i <= n,
            n == raw@.len(),
            split_segments(raw@.take(i as int)).len() >= 1,
            normalize_segments(split_segments(raw@.take(i as int)).drop_last()) == Some(
                seg_views(stack@),
            ),
            split_segments(raw@.take(i as int)).last() == raw@.subrange(
                seg_start as int,
                i as int,
            ),
        decreases n - i,
    {
        let c = raw.get_char(i);
        proof {
            assert(raw@.take(i as int + 1) =~= raw@.take(i as int).push(raw@[i as int]));
            lemma_split_append(raw@.take(i as int), raw@[i as int]);
            lemma_split_segments_len(raw@.take(i as int + 1));
        }
        if c == '/' {
            let seg = raw.substring_char(seg_start, i);
            let ok = apply_segment(&mut stack, seg);
            if !ok {
                proof {
                    assert(split_segments(raw@.take(i as int + 1)).drop_last()
                        =~= split_segments(raw@.take(i as int)));
                    lemma_none_propagates(raw@, i as int + 1);
                }
                return Err(Error::InvalidPermissions);
            }
            seg_start = i + 1;
            proof {
                assert(split_segments(raw@.take(i as int + 1)).drop_last() =~= split_segments(
                    raw@.take(i as int),
                ));
                assert(raw@.subrange(i as int + 1, i as int + 1) =~= Seq::<char>::empty());
            }
        } else {
            proof {
                let r0 = split_segments(raw@.take(i as int));
                let r1 = split_segments(raw@.take(i as int + 1));
                assert(r1.drop_last() =~= r0.drop_last());
                assert(raw@.subrange(seg_start as int, i as int + 1) =~= raw@.subrange(
                    seg_start as int,
                    i as int,
                ).push(raw@[i as int]));
            }
        }
        i += 1;
    }
    proof {
        assert(raw@.take(n as int) =~= raw@);
    }
    let seg = raw.substring_char(seg_start, n);
    let ok = apply_segment(&mut stack, seg);
    if !ok {
        return Err(Error::InvalidPermissions);
    }
    let ghost kept = seg_views(stack@);
    assert(normalize_segments(split_segments(raw@)) == Some(kept));
    let mut out = String::new();
    let mut k: usize = 0;
    proof {
        assert(kept.take(0) =~= Seq::<Seq<char>>::empty());
    }
    while k < stack.len()
        invariant
            0 <= k <= stack@.len(),
            kept == seg_views(stack@),
            out@ == join_segments(kept.take(k as int)),
        decreases stack@.len() - k,
    {
        if k > 0 {
            out.append("/");
        }
        out.append(stack[k].as_str());
        proof {
            reveal_strlit("/");
            assert("/"@ =~= seq!['/']);
            assert(kept.take(k as int + 1).drop_last() =~= kept.take(k as int));
            assert(kept.take(k as int + 1).last() == stack@[k as int]@);
            if k == 0 {
                assert(out@ =~= kept[0]);
            }
        }
        k += 1;
    }
    proof {
        assert(kept.take(stack@.len() as int) =~= kept);
    }
    Ok(out)
}

/// Escape rejection: a path whose parent-directory marker is evaluated
/// against an empty stack fails sanitization, whatever follows it.
pub proof fn lemma_escape_rejected(s: Seq<char>, i: int)
    requires
        0 <= i < split_segments(s).len(),
        is_parent_segment(split_segments(s)[i]),
        normalize_segments(split_segments(s).take(i)) == Some(Seq::<Seq<char>>::empty()),
    ensures
        sanitize_spec(s) is None,
{
    let segs = split_segments(s);
    assert(segs.take(i + 1).drop_last() =~= segs.take(i));
    assert(segs.take(i + 1).last() == segs[i]);
    assert(segs.take(i + 1).len() == i + 1);
    assert(normalize_segments(segs.take(i + 1)) is None);
    lemma_none_extends(segs.take(i + 1), segs.subrange(i + 1, segs.len() as int));
    assert(segs.take(i + 1) + segs.subrange(i + 1, segs.len() as int) =~= segs);
}

/// A separator-free string splits into itself as the only segment.
proof fn lemma_split_single(seg: Seq<char>)
    requires
        segment_has_no_sep(seg),
    ensures
        split_segments(seg) == seq![seg],
    decreases seg.len(),
{
    if seg.len() == 0 {
        assert(seg =~= Seq::<char>::empty());
        assert(split_segments(seg) =~= seq![seg]);
    } else {
        assert(segment_has_no_sep(seg.drop_last()));
        lemma_split_single(seg.drop_last());
        assert(seg.last() != '/');
        assert(seg.drop_last().push(seg.last()) =~= seg);
        assert(seq![seg.drop_last()].update(0, seg.drop_last().push(seg.last())) =~= seq![seg]);
    }
}

/// Appending a separator and a separator-free segment appends exactly that
/// segment to the split.
proof fn lemma_split_sep_append(a: Seq<char>, seg: Seq<char>)
    requires
        segment_has_no_sep(seg),
    ensures
        split_segments(a + seq!['/'] + seg) == split_segments(a).push(seg),
    decreases seg.len(),
{
    lemma_split_segments_len(a);
    if seg.len() == 0 {
        assert(a + seq!['/'] + seg =~= a.push('/'));
        lemma_split_append(a, '/');
        assert(seg =~= Seq::<char>::empty());
    } else {
        assert(segment_has_no_sep(seg.drop_last()));
        lemma_split_sep_append(a, seg.drop_last());
        let prev = a + seq!['/'] + seg.drop_last();
        assert(a + seq!['/'] + seg =~= prev.push(seg.last()));
        assert(seg.last() != '/');
        lemma_split_append(prev, seg.last());
        let r = split_segments(prev);
        assert(r == split_segments(a).push(seg.drop_last()));
        assert(r.last() == seg.drop_last());
        assert(seg.drop_last().push(seg.last()) =~= seg);
        assert(r.update(r.len() - 1, seg.drop_last().push(seg.last())) =~= split_segments(a).push(
            seg,
        ));
    }
}

/// Joining a non-empty stack of kept segments and splitting again recovers
/// the stack.
proof fn lemma_split_join(st: Seq<Seq<char>>)
    requires
        is_normal_stack(st),
        st.len() >= 1,
    ensures
        split_segments(join_segments(st)) == st,
    decreases st.len(),
{
    if st.len() == 1 {
        assert(is_normal_segment(st[0]));
        lemma_split_single(st[0]);
        assert(seq![st[0]] =~= st);
    } else {
        assert(is_normal_stack(st.drop_last()));
        lemma_split_join(st.drop_last());
        assert(is_normal_segment(st.last()));
        lemma_split_sep_append(join_segments(st.drop_last()), st.last());
        assert(st.drop_last().push(st.last()) =~= st);
    }
}

/// A stack of kept segments normalizes to itself.
proof fn lemma_normalize_normal_identity(st: Seq<Seq<char>>)
    requires
        is_normal_stack(st),
    ensures
        normalize_segments(st) == Some(st),
    decreases st.len(),
{
    if st.len() > 0 {
        assert(is_normal_stack(st.drop_last()));
        lemma_normalize_normal_identity(st.drop_last());
        assert(is_normal_segment(st.last()));
        assert(st.drop_last().push(st.last()) =~= st);
    }
}

/// Idempotence: sanitizing an already sanitized path returns it unchanged.
pub proof fn lemma_sanitize_idempotent(s: Seq<char>)
    requires
        sanitize_spec(s) is Some,
    ensures
        sanitize_spec(sanitize_spec(s)->Some_0) == sanitize_spec(s),
{
    let segs = split_segments(s);
    let st = normalize_segments(segs)->Some_0;
    let q = join_segments(st);
    lemma_split_segments_no_sep(s);
    lemma_normalize_keeps_normal(segs);
    if st.len() == 0 {
        assert(q =~= Seq::<char>::empty());
        let one = seq![Seq::<char>::empty()];
        assert(split_segments(q) == one);
        assert(one.drop_last() =~= Seq::<Seq<char>>::empty());
        assert(one.last() == Seq::<char>::empty());
        assert(!is_parent_segment(Seq::<char>::empty())) by {
            assert(seq!['.', '.'].len() == 2);
        }
        assert(is_skip_segment(Seq::<char>::empty()));
        assert(normalize_segments(Seq::<Seq<char>>::empty()) == Some(Seq::<Seq<char>>::empty()));
        assert(normalize_segments(one) == Some(Seq::<Seq<char>>::empty()));
    } else {
        lemma_split_join(st);
        lemma_normalize_normal_identity(st);
    }
}

} // verus!
