use vstd::prelude::*;
use vstd::string::StrSliceExecFns;
use vstd::string::StringExecFns;

verus! {

/// The segments of a path string: the maximal runs of characters between
/// `/` separators, kept verbatim, empty runs included. A path without any
/// separator is a single segment; every separator adds one more, so a
/// leading separator contributes an empty first segment (the root marker)
/// and a trailing one an empty last segment.
pub open spec fn segments(p: Seq<char>) -> Seq<Seq<char>>
    decreases p.len(),
{
    if p.len() == 0 {
        seq![Seq::<char>::empty()]
    } else if p[0] == '/' {
        seq![Seq::<char>::empty()] + segments(p.skip(1))
    } else {
        let rest = segments(p.skip(1));
        seq![seq![p[0]] + rest[0]] + rest.skip(1)
    }
}

/// A segment that names an ordinary directory entry: non-empty, and neither
/// the current-directory marker `.` nor the parent-reference `..`.
pub open spec fn seg_normal(s: Seq<char>) -> bool {
    s.len() > 0 && s != seq!['.'] && s != seq!['.', '.']
}

/// The normal segments of `segs`, kept in their original order.
pub open spec fn normal_only(segs: Seq<Seq<char>>) -> Seq<Seq<char>>
    decreases segs.len(),
{
    if segs.len() == 0 {
        Seq::<Seq<char>>::empty()
    } else if seg_normal(segs[0]) {
        seq![segs[0]] + normal_only(segs.skip(1))
    } else {
        normal_only(segs.skip(1))
    }
}

/// What sanitization makes of a stored archive entry path: its segments
/// after the first one (the archive's self-named top directory), normal
/// segments only, in their original order.
pub open spec fn sanitized(p: Seq<char>) -> Seq<Seq<char>> {
    normal_only(segments(p).skip(1))
}

/// The path that components name under `root`: `root` itself when there are
/// none, else `root`, a separator, and each component in turn.
pub open spec fn join_under(root: Seq<char>, comps: Seq<Seq<char>>) -> Seq<char>
    decreases comps.len(),
{
    if comps.len() == 0 {
        root
    } else {
        join_under(root + seq!['/'] + comps[0], comps.skip(1))
    }
}

/// No character of `s` is the path separator.
pub open spec fn no_separator(s: Seq<char>) -> bool {
    forall|k: int| 0 <= k < s.len() ==> s[k] != '/'
}

/// A path always splits into at least one segment.
pub proof fn lemma_segments_nonempty(p: Seq<char>)
    ensures
        segments(p).len() >= 1,
    decreases p.len(),
{
    if p.len() > 0 {
        lemma_segments_nonempty(p.skip(1));
    }
}

/// Splitting off the first segment: when the first separator of `p` stands
/// at `k`, the segments of `p` are the run before it followed by the
/// segments of what comes after it.
pub proof fn lemma_segments_split(p: Seq<char>, k: int)
    requires
        0 <= k < p.len(),
        p[k] == '/',
        forall|m: int| 0 <= m < k ==> p[m] != '/',
    ensures
        segments(p) == seq![p.take(k)] + segments(p.skip(k + 1)),
    decreases k,
{
    if k == 0 {
        assert(p.take(0) =~= Seq::<char>::empty());
    } else {
        let rest = segments(p.skip(1));
        assert(p.skip(1)[k - 1] == p[k]);
        assert forall|m: int| 0 <= m < k - 1 implies p.skip(1)[m] != '/' by {
            assert(p.skip(1)[m] == p[m + 1]);
        }
        lemma_segments_split(p.skip(1), k - 1);
        lemma_segments_nonempty(p.skip(1));
        assert(p.skip(1).skip(k) =~= p.skip(k + 1));
        assert(seq![p[0]] + p.skip(1).take(k - 1) =~= p.take(k));
        assert(rest.skip(1) =~= segments(p.skip(k + 1)));
        assert(segments(p) =~= seq![p.take(k)] + segments(p.skip(k + 1)));
    }
}

/// A path without any separator is exactly one segment: itself.
pub proof fn lemma_segments_no_separator_whole(p: Seq<char>)
    requires
        no_separator(p),
    ensures
        segments(p) == seq![p],
    decreases p.len(),
{
    if p.len() == 0 {
        assert(p =~= Seq::<char>::empty());
    } else {
        assert forall|m: int| 0 <= m < p.len() - 1 implies p.skip(1)[m] != '/' by {
            assert(p.skip(1)[m] == p[m + 1]);
        }
        lemma_segments_no_separator_whole(p.skip(1));
        assert(seq![p[0]] + p.skip(1) =~= p);
        assert(segments(p.skip(1)).skip(1) =~= Seq::<Seq<char>>::empty());
        assert(segments(p) =~= seq![p]);
    }
}

/// Every segment a path splits into is free of the separator.
pub proof fn lemma_segments_no_separator(p: Seq<char>)
    ensures
        forall|i: int| 0 <= i < segments(p).len() ==> no_separator(#[trigger] segments(p)[i]),
    decreases p.len(),
{
    if p.len() == 0 {
    } else if p[0] == '/' {
        lemma_segments_no_separator(p.skip(1));
        assert forall|i: int| 0 <= i < segments(p).len() implies no_separator(
            #[trigger] segments(p)[i],
        ) by {
            if i > 0 {
                assert(segments(p)[i] == segments(p.skip(1))[i - 1]);
            }
        }
    } else {
        lemma_segments_no_separator(p.skip(1));
        lemma_segments_nonempty(p.skip(1));
        let rest = segments(p.skip(1));
        assert forall|i: int| 0 <= i < segments(p).len() implies no_separator(
            #[trigger] segments(p)[i],
        ) by {
            if i == 0 {
                assert(no_separator(rest[0]));
                assert forall|k: int| 0 <= k < segments(p)[0].len() implies segments(p)[0][k]
                    != '/' by {
                    if k > 0 {
                        assert(segments(p)[0][k] == rest[0][k - 1]);
                    }
                }
            } else {
                assert(segments(p)[i] == rest.skip(1)[i - 1]);
                assert(rest.skip(1)[i - 1] == rest[i]);
            }
        }
    }
}

/// Every segment that the normal-only selection keeps is normal; and when
/// every input segment is separator-free, so is every kept one.
pub proof fn lemma_normal_only_elems(segs: Seq<Seq<char>>)
    ensures
        forall|i: int| 0 <= i < normal_only(segs).len() ==> seg_normal(
            #[trigger] normal_only(segs)[i],
        ),
        (forall|i: int| 0 <= i < segs.len() ==> no_separator(#[trigger] segs[i])) ==> (forall|
            i: int,
        |
            0 <= i < normal_only(segs).len() ==> no_separator(#[trigger] normal_only(segs)[i])),
    decreases segs.len(),
{
    if segs.len() > 0 {
        lemma_normal_only_elems(segs.skip(1));
        assert forall|i: int| 0 <= i < segs.skip(1).len() implies segs.skip(1)[i] == segs[i
            + 1] by {}
        if seg_normal(segs[0]) {
            assert forall|i: int|
                0 <= i < normal_only(segs).len() implies seg_normal(
                #[trigger] normal_only(segs)[i],
            ) by {
                if i > 0 {
                    assert(normal_only(segs)[i] == normal_only(segs.skip(1))[i - 1]);
                }
            }
            if forall|i: int| 0 <= i < segs.len() ==> no_separator(#[trigger] segs[i]) {
                assert forall|i: int|
                    0 <= i < normal_only(segs).len() implies no_separator(
                    #[trigger] normal_only(segs)[i],
                ) by {
                    if i > 0 {
                        assert(normal_only(segs)[i] == normal_only(segs.skip(1))[i - 1]);
                    }
                }
            }
        }
    }
}

/// The normal-only selection of a sequence of normal segments is that
/// sequence itself.
proof fn lemma_normal_only_identity(segs: Seq<Seq<char>>)
    requires
        forall|i: int| 0 <= i < segs.len() ==> seg_normal(#[trigger] segs[i]),
    ensures
        normal_only(segs) == segs,
    decreases segs.len(),
{
    if segs.len() > 0 {
        assert forall|i: int| 0 <= i < segs.skip(1).len() implies seg_normal(
            #[trigger] segs.skip(1)[i],
        ) by {
            assert(segs.skip(1)[i] == segs[i + 1]);
        }
        lemma_normal_only_identity(segs.skip(1));
        assert(normal_only(segs) =~= segs);
    }
}

/// Law: sanitization drops exactly the first segment and keeps the later
/// normal segments verbatim, in their original relative order — so for a
/// path whose segments after the first are all normal, as in a well-formed
/// archive, the result is exactly those segments.
pub proof fn lemma_sanitize_drops_first_keeps_rest(p: Seq<char>)
    requires
        forall|i: int| 1 <= i < segments(p).len() ==> seg_normal(#[trigger] segments(p)[i]),
    ensures
        sanitized(p) == segments(p).skip(1),
{
    assert forall|i: int| 0 <= i < segments(p).skip(1).len() implies seg_normal(
        #[trigger] segments(p).skip(1)[i],
    ) by {
        assert(segments(p).skip(1)[i] == segments(p)[i + 1]);
    }
    lemma_normal_only_identity(segments(p).skip(1));
}

/// Joining components onto a root keeps the root as a prefix of the result,
/// with a separator straight after it whenever any component follows.
pub proof fn lemma_join_keeps_root_prefix(root: Seq<char>, comps: Seq<Seq<char>>)
    ensures
        join_under(root, comps).len() >= root.len(),
        join_under(root, comps).subrange(0, root.len() as int) == root,
        comps.len() > 0 ==> join_under(root, comps).len() > root.len() && join_under(root, comps)[
            root.len() as int
        ] == '/',
    decreases comps.len(),
{
    if comps.len() > 0 {
        let root2 = root + seq!['/'] + comps[0];
        lemma_join_keeps_root_prefix(root2, comps.skip(1));
        let j = join_under(root, comps);
        assert(j.subrange(0, root2.len() as int) == root2);
        assert forall|k: int| 0 <= k < root.len() implies j[k] == root[k] by {
            assert(j[k] == j.subrange(0, root2.len() as int)[k]);
        }
        assert(j[root.len() as int] == j.subrange(0, root2.len() as int)[root.len() as int]);
        assert(j.subrange(0, root.len() as int) =~= root);
    }
}

/// Law: sanitization never lets an entry escape the install root. For any
/// stored entry path, however adversarial, the joined extraction target
/// starts with the root, continues with a separator when anything follows,
/// and every following component is a normal, separator-free segment — no
/// parent reference, no empty run, no absolute restart.
pub proof fn lemma_sanitized_path_stays_under_root(root: Seq<char>, p: Seq<char>)
    ensures
        join_under(root, sanitized(p)).len() >= root.len(),
        join_under(root, sanitized(p)).subrange(0, root.len() as int) == root,
        sanitized(p).len() > 0 ==> join_under(root, sanitized(p))[root.len() as int] == '/',
        forall|i: int| 0 <= i < sanitized(p).len() ==> seg_normal(#[trigger] sanitized(p)[i])
            && no_separator(sanitized(p)[i]),
{
    lemma_segments_no_separator(p);
    let tail = segments(p).skip(1);
    assert forall|i: int| 0 <= i < tail.len() implies no_separator(#[trigger] tail[i]) by {
        assert(tail[i] == segments(p)[i + 1]);
    }
    lemma_normal_only_elems(tail);
    lemma_join_keeps_root_prefix(root, sanitized(p));
}

/// Whether one segment, as a string, is a normal one.
fn is_normal_segment(s: &str) -> (r: bool)
    ensures
        r == seg_normal(s@),
{
    let n = s.unicode_len();
    if n == 0 {
        return false;
    }
    if n == 1 && s.get_char(0) == '.' {
        proof {
            assert(s@ =~= seq!['.']);
        }
        return false;
    }
    if n == 2 && s.get_char(0) == '.' && s.get_char(1) == '.' {
        proof {
            assert(s@ =~= seq!['.', '.']);
        }
        return false;
    }
    true
}

/// Sanitizes a stored archive entry path: splits it into segments, drops
/// the first segment — the archive's self-named top directory — and keeps
/// only the normal segments among the rest, in their original order. The
/// result never holds a parent reference, an empty run or a root marker,
/// so joining it under the install root cannot leave that root.
pub fn sanitize_entry_path(p: &str) -> (segs: Vec<String>)
    ensures
        segs.deep_view() == sanitized(p@),
{
    let n = p.unicode_len();
    let mut raw: Vec<String> = Vec::new();
    let mut cur: usize = 0;
    proof {
        assert(p@.skip(0) =~= p@);
    }
    loop
        invariant_except_break
            cur <= n,
            n == p@.len(),
            raw.deep_view() + segments(p@.skip(cur as int)) == segments(p@),
        ensures
            raw.deep_view() == segments(p@),
        decreases n - cur,
    {
        let ghost pre = raw.deep_view();
        let mut j = cur;
        while j < n && p.get_char(j) != '/'
            invariant
                cur <= j <= n,
                n == p@.len(),
                forall|m: int| cur <= m < j ==> p@[m] != '/',
            decreases n - j,
        {
            j += 1;
        }
        let seg = p.substring_char(cur, j).to_owned();
        raw.push(seg);
        proof {
            assert(raw.deep_view() =~= pre.push(p@.subrange(cur as int, j as int)));
            let sk = p@.skip(cur as int);
            assert forall|m: int| 0 <= m < j - cur implies sk[m] != '/' by {
                assert(sk[m] == p@[cur + m]);
            }
        }
        if j == n {
            proof {
                let sk = p@.skip(cur as int);
                assert(sk =~= p@.subrange(cur as int, j as int));
                lemma_segments_no_separator_whole(sk);
                assert(raw.deep_view() =~= pre + segments(sk));
                assert(raw.deep_view() =~= segments(p@));
            }
            break;
        }
        proof {
            let sk = p@.skip(cur as int);
            assert(sk[j - cur] == p@[j as int]);
            lemma_segments_split(sk, j - cur);
            assert(sk.take(j - cur) =~= p@.subrange(cur as int, j as int));
            assert(sk.skip(j - cur + 1) =~= p@.skip(j + 1));
            assert(raw.deep_view() + segments(p@.skip(j + 1)) =~= pre + segments(sk));
            assert(raw.deep_view() + segments(p@.skip(j + 1)) =~= segments(p@));
        }
        cur = j + 1;
    }
    proof {
        lemma_segments_nonempty(p@);
    }
    let mut out: Vec<String> = Vec::new();
    let mut i: usize = 1;
    proof {
        assert(out.deep_view() + normal_only(raw.deep_view().skip(1)) =~= sanitized(p@));
    }
    while i < raw.len()
        invariant
            1 <= i <= raw.len(),
            raw.deep_view() == segments(p@),
            out.deep_view() + normal_only(raw.deep_view().skip(i as int)) == sanitized(p@),
        decreases raw.len() - i,
    {
        let ghost pre = out.deep_view();
        let ghost sk = raw.deep_view().skip(i as int);
        proof {
            assert(sk[0] == raw.deep_view()[i as int]);
            assert(sk.skip(1) =~= raw.deep_view().skip(i + 1));
        }
        if is_normal_segment(raw[i].as_str()) {
            let kept = raw[i].clone();
            out.push(kept);
            proof {
                assert(out.deep_view() =~= pre.push(raw.deep_view()[i as int]));
                assert(out.deep_view() + normal_only(raw.deep_view().skip(i + 1)) =~= pre + (seq![
                    sk[0],
                ] + normal_only(sk.skip(1))));
                assert(out.deep_view() + normal_only(raw.deep_view().skip(i + 1)) =~= sanitized(
                    p@,
                ));
            }
        }
        i += 1;
    }
    proof {
        assert(raw.deep_view().skip(raw.len() as int) =~= Seq::<Seq<char>>::empty());
        assert(out.deep_view() + normal_only(raw.deep_view().skip(raw.len() as int)) =~=
        out.deep_view());
    }
    out
}

/// Joins sanitized components under a root path: the root itself when there
/// are none, else the root, a separator, and each component in turn.
pub fn join_components(root: &str, comps: &Vec<String>) -> (r: String)
    ensures
        r@ == join_under(root@, comps.deep_view()),
{
    let mut r = root.to_owned();
    let n = comps.len();
    proof {
        reveal_strlit("/");
        assert(comps.deep_view().skip(0) =~= comps.deep_view());
    }
    for i in 0..n
        invariant
            n == comps@.len(),
            join_under(root@, comps.deep_view()) == join_under(r@, comps.deep_view().skip(i as int)),
    {
        let ghost r0 = r@;
        r.append("/");
        r.append(comps[i].as_str());
        proof {
            reveal_strlit("/");
            let dv = comps.deep_view();
            assert(dv.skip(i as int)[0] == dv[i as int]);
            assert(dv.skip(i as int).skip(1) =~= dv.skip(i + 1));
            assert(r@ =~= r0 + seq!['/'] + dv[i as int]);
            assert(join_under(r0, dv.skip(i as int)) == join_under(r@, dv.skip(i + 1)));
        }
    }
    proof {
        assert(comps.deep_view().skip(n as int) =~= Seq::<Seq<char>>::empty());
    }
    r
}

} // verus!
