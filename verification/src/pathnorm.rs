use vstd::prelude::*;
use vstd::string::{StringExecFns, StrSliceExecFns};

verus! {

/// The segments of a path string, split on `/`. Splitting the empty string
/// yields one empty segment; every separator ends the segment before it.
pub open spec fn split_slash(s: Seq<char>) -> Seq<Seq<char>>
    decreases s.len(),
{
    if s.len() == 0 {
        seq![Seq::<char>::empty()]
    } else if s.last() == '/' {
        split_slash(s.drop_last()).push(Seq::<char>::empty())
    } else {
        let sp = split_slash(s.drop_last());
        sp.update(sp.len() - 1, sp.last().push(s.last()))
    }
}

/// Lexical normalization of a segment sequence: empty and `.` segments
/// vanish, and `..` removes the segment before it where one exists. In an
/// absolute path a `..` with nothing left to remove vanishes (the root has no
/// parent); in a relative path it is kept.
pub open spec fn norm_segments(segs: Seq<Seq<char>>, abs: bool) -> Seq<Seq<char>>
    decreases segs.len(),
{
    if segs.len() == 0 {
        Seq::<Seq<char>>::empty()
    } else {
        let rest = norm_segments(segs.drop_last(), abs);
        let last = segs.last();
        if last.len() == 0 || last == "."@ {
            rest
        } else if last == ".."@ {
            if rest.len() > 0 && rest.last() != ".."@ {
                rest.drop_last()
            } else if abs {
                rest
            } else {
                rest.push(last)
            }
        } else {
            rest.push(last)
        }
    }
}

/// The segments joined back with `/` separators.
pub open spec fn join_slash(segs: Seq<Seq<char>>) -> Seq<char>
    decreases segs.len(),
{
    if segs.len() == 0 {
        Seq::<char>::empty()
    } else if segs.len() == 1 {
        segs[0]
    } else {
        join_slash(segs.drop_last()) + seq!['/'] + segs.last()
    }
}

/// The lexically normalized form of a path string: its segments normalized
/// and rejoined, with a leading `/` kept for absolute paths.
pub open spec fn normalize_spec(s: Seq<char>) -> Seq<char> {
    let abs = s.len() > 0 && s[0] == '/';
    let norm = norm_segments(split_slash(s), abs);
    if abs {
        seq!['/'] + join_slash(norm)
    } else {
        join_slash(norm)
    }
}

/// The subranges of `s` named by a list of index pairs.
pub open spec fn range_views(s: Seq<char>, rs: Seq<(usize, usize)>) -> Seq<Seq<char>> {
    rs.map_values(|r: (usize, usize)| s.subrange(r.0 as int, r.1 as int))
}

/// Compute the lexically normalized form of a path.
pub fn normalize_path(path: &str) -> (r: String)
    ensures
        r@ == normalize_spec(path@),
{
    let n = path.unicode_len();
    let abs = n > 0 && path.get_char(0) == '/';

    // Split into segment ranges.
    let mut segs: Vec<(usize, usize)> = Vec::new();
    let mut start: usize = 0;
    let mut i: usize = 0;
    proof {
        assert(path@.take(0).len() == 0);
        assert(range_views(path@, segs@).push(path@.subrange(0, 0)) =~~= split_slash(
            path@.take(0),
        ));
    }
    while i < n
        invariant
            start <= i <= n,
            n == path@.len(),
            forall|k: int|
                0 <= k < segs@.len() ==> (#[trigger] segs@[k]).0 <= segs@[k].1 <= n,
            range_views(path@, segs@).push(path@.subrange(start as int, i as int))
                == split_slash(path@.take(i as int)),
        decreases n - i,
    {
        let c = path.get_char(i);
        proof {
            assert(path@.take(i + 1 as int).drop_last() =~= path@.take(i as int));
            assert(path@.take(i + 1 as int).last() == path@[i as int]);
        }
        if c == '/' {
            segs.push((start, i));
            start = i + 1;
            proof {
                assert(range_views(path@, segs@).push(
                    path@.subrange(start as int, (i + 1) as int),
                ) =~~= split_slash(path@.take((i + 1) as int)));
            }
        } else {
            proof {
                let sp = split_slash(path@.take(i as int));
                assert(split_slash(path@.take((i + 1) as int)) == sp.update(
                    sp.len() - 1,
                    sp.last().push(path@[i as int]),
                ));
                assert(range_views(path@, segs@).push(
                    path@.subrange(start as int, (i + 1) as int),
                ) =~~= sp.update(sp.len() - 1, sp.last().push(path@[i as int])));
            }
        }
        i += 1;
    }
    segs.push((start, n));
    proof {
        assert(path@.take(n as int) =~= path@);
        assert(range_views(path@, segs@) =~~= split_slash(path@));
    }

    // Normalize the segments with a stack.
    let all = segs;
    let m = all.len();
    let mut stack: Vec<(usize, usize)> = Vec::new();
    let mut j: usize = 0;
    proof {
        assert(range_views(path@, all@).take(0).len() == 0);
        assert(range_views(path@, stack@) =~~= norm_segments(
            range_views(path@, all@).take(0),
            abs,
        ));
    }
    while j < m
        invariant
            j <= m,
            m == all@.len(),
            n == path@.len(),
            forall|k: int| 0 <= k < all@.len() ==> (#[trigger] all@[k]).0 <= all@[k].1 <= n,
            forall|k: int|
                0 <= k < stack@.len() ==> (#[trigger] stack@[k]).0 <= stack@[k].1 <= n,
            range_views(path@, stack@) == norm_segments(
                range_views(path@, all@).take(j as int),
                abs,
            ),
        decreases m - j,
    {
        let (s, e) = all[j];
        let ghost segsj = range_views(path@, all@).take(j as int);
        let ghost seg = path@.subrange(s as int, e as int);
        proof {
            reveal_strlit(".");
            reveal_strlit("..");
            assert(range_views(path@, all@).take(j + 1 as int).drop_last() =~~= segsj);
            assert(range_views(path@, all@).take(j + 1 as int).last() == seg);
        }
        let is_dot = e - s == 1 && path.get_char(s) == '.';
        let is_dotdot = e - s == 2 && path.get_char(s) == '.' && path.get_char(s + 1) == '.';
        proof {
            assert(is_dot == (seg == "."@)) by {
                if e - s == 1 && path@[s as int] == '.' {
                    assert(seg =~= "."@);
                }
                if seg == "."@ {
                    assert(seg.len() == 1 && seg[0] == '.');
                }
            }
            assert(is_dotdot == (seg == ".."@)) by {
                if e - s == 2 && path@[s as int] == '.' && path@[s + 1 as int] == '.' {
                    assert(seg =~= ".."@);
                }
                if seg == ".."@ {
                    assert(seg.len() == 2 && seg[0] == '.' && seg[1] == '.');
                }
            }
        }
        if e == s || is_dot {
            // the segment vanishes
        } else if is_dotdot {
            let depth = stack.len();
            let mut top_is_dotdot = false;
            if depth > 0 {
                let (ts, te) = stack[depth - 1];
                top_is_dotdot = te - ts == 2 && path.get_char(ts) == '.' && path.get_char(
                    ts + 1,
                ) == '.';
                proof {
                    let top = path@.subrange(ts as int, te as int);
                    assert(top_is_dotdot == (top == ".."@)) by {
                        if te - ts == 2 && path@[ts as int] == '.' && path@[ts + 1 as int] == '.' {
                            assert(top =~= ".."@);
                        }
                        if top == ".."@ {
                            assert(top.len() == 2 && top[0] == '.' && top[1] == '.');
                        }
                    }
                }
            }
            if depth > 0 && !top_is_dotdot {
                stack.pop();
                proof {
                    assert(range_views(path@, stack@) =~~= norm_segments(segsj, abs).drop_last());
                }
            } else if !abs {
                stack.push((s, e));
                proof {
                    assert(range_views(path@, stack@) =~~= norm_segments(segsj, abs).push(seg));
                }
            }
        } else {
            stack.push((s, e));
            proof {
                assert(range_views(path@, stack@) =~~= norm_segments(segsj, abs).push(seg));
            }
        }
        proof {
            assert(range_views(path@, stack@) =~~= norm_segments(
                range_views(path@, all@).take(j + 1 as int),
                abs,
            ));
        }
        j += 1;
    }
    proof {
        assert(range_views(path@, all@).take(m as int) =~~= range_views(path@, all@));
    }

    // Join the normalized segments.
    let mut r = String::new();
    if abs {
        r.append("/");
        proof {
            reveal_strlit("/");
        }
    }
    let ghost norm = range_views(path@, stack@);
    let ghost prefix: Seq<char> = if abs {
        seq!['/']
    } else {
        Seq::<char>::empty()
    };
    let depth = stack.len();
    let mut k: usize = 0;
    proof {
        assert(norm.take(0).len() == 0);
    }
    while k < depth
        invariant
            k <= depth,
            depth == stack@.len(),
            n == path@.len(),
            forall|t: int|
                0 <= t < stack@.len() ==> (#[trigger] stack@[t]).0 <= stack@[t].1 <= n,
            norm == range_views(path@, stack@),
            r@ =~= prefix + join_slash(norm.take(k as int)),
        decreases depth - k,
    {
        proof {
            reveal_strlit("/");
            assert(norm.take(k + 1 as int).drop_last() =~= norm.take(k as int));
            assert(norm.take(k + 1 as int).last() == norm[k as int]);
        }
        if k > 0 {
            r.append("/");
        }
        let (s, e) = stack[k];
        r.append(path.substring_char(s, e));
        k += 1;
    }
    proof {
        assert(norm.take(depth as int) =~= norm);
        assert(r@ =~= normalize_spec(path@));
    }
    r
}

} // verus!
