//! Unix paths as texts: their components, last name, extension, parent and joining,
//! with the meaning that `std::path::Path` gives them on Unix.
use vstd::prelude::*;
use crate::text::{char_vecs, copy_chars, eq_str, sub_chars};

verus! {

// ---------------------------------------------------------------------------
// Specifications
// ---------------------------------------------------------------------------

/// Reading `s` from the left: the pieces already ended by a `/`, and the piece being read.
pub open spec fn pieces_scan(s: Seq<char>) -> (Seq<Seq<char>>, Seq<char>)
    decreases s.len(),
{
    if s.len() == 0 {
        (seq![], seq![])
    } else {
        let (done, cur) = pieces_scan(s.drop_last());
        if s.last() == '/' {
            (done.push(cur), seq![])
        } else {
            (done, cur.push(s.last()))
        }
    }
}

/// The texts between the `/` separators of `s`, empty ones included (`"/a//b"` gives
/// `""`, `"a"`, `""`, `"b"`).
pub open spec fn pieces(s: Seq<char>) -> Seq<Seq<char>> {
    let (done, cur) = pieces_scan(s);
    done.push(cur)
}

/// A component of a path, written as text: `"/"` for the root, `"."` for a leading
/// current directory, `".."` for a parent directory, and a name otherwise.
pub open spec fn is_name(c: Seq<char>) -> bool {
    c != seq!['/'] && c != seq!['.'] && c != seq!['.', '.']
}

/// The components that the pieces of a path's body give: empty pieces and `.` are
/// dropped.
pub open spec fn body_parts(ps: Seq<Seq<char>>) -> Seq<Seq<char>>
    decreases ps.len(),
{
    if ps.len() == 0 {
        seq![]
    } else {
        let rest = body_parts(ps.drop_last());
        let p = ps.last();
        if p.len() == 0 || p == seq!['.'] {
            rest
        } else {
            rest.push(p)
        }
    }
}

pub open spec fn is_rooted(p: Seq<char>) -> bool {
    p.len() > 0 && p[0] == '/'
}

/// The components of `p` (`Path::components`): a leading root, or a leading `.`, then the
/// non-empty pieces other than `.`.
pub open spec fn components(p: Seq<char>) -> Seq<Seq<char>> {
    let ps = pieces(p);
    if is_rooted(p) {
        seq![seq!['/']] + body_parts(ps.drop_first())
    } else if ps[0] == seq!['.'] {
        seq![seq!['.']] + body_parts(ps.drop_first())
    } else {
        body_parts(ps)
    }
}

/// The last component of `p` when it is a name (`Path::file_name`).
pub open spec fn file_name(p: Seq<char>) -> Option<Seq<char>> {
    let cs = components(p);
    if cs.len() > 0 && is_name(cs.last()) {
        Some(cs.last())
    } else {
        None
    }
}

/// The name of the directory that holds `p`: the component before the last one, when
/// the last one is no root and that one is a name (`p.parent()` then `file_name`).
pub open spec fn parent_name(p: Seq<char>) -> Option<Seq<char>> {
    let cs = components(p);
    if cs.len() >= 2 && cs.last() != seq!['/'] && is_name(cs[cs.len() - 2]) {
        Some(cs[cs.len() - 2])
    } else {
        None
    }
}

/// Index of the last `.` in `s`, or -1.
pub open spec fn last_dot(s: Seq<char>) -> int
    decreases s.len(),
{
    if s.len() == 0 {
        -1
    } else if s.last() == '.' {
        s.len() - 1
    } else {
        last_dot(s.drop_last())
    }
}

/// The extension of a file name: the text after its last `.`, unless there is no `.` or
/// the only `.` starts the name.
pub open spec fn name_extension(n: Seq<char>) -> Option<Seq<char>> {
    if last_dot(n) > 0 {
        Some(n.skip(last_dot(n) + 1))
    } else {
        None
    }
}

/// The stem of a file name: the text before its last `.`, or the whole name when the
/// extension is absent.
pub open spec fn name_stem(n: Seq<char>) -> Seq<char> {
    if last_dot(n) > 0 {
        n.take(last_dot(n))
    } else {
        n
    }
}

/// `Path::extension`.
pub open spec fn extension(p: Seq<char>) -> Option<Seq<char>> {
    match file_name(p) {
        Some(n) => name_extension(n),
        None => None,
    }
}

/// `Path::file_stem`.
pub open spec fn file_stem(p: Seq<char>) -> Option<Seq<char>> {
    match file_name(p) {
        Some(n) => Some(name_stem(n)),
        None => None,
    }
}

/// Index of the last `/` in `s`, or -1.
pub open spec fn last_sep(s: Seq<char>) -> int
    decreases s.len(),
{
    if s.len() == 0 {
        -1
    } else if s.last() == '/' {
        s.len() - 1
    } else {
        last_sep(s.drop_last())
    }
}

/// The piece after the last `/` of `body` (all of it when there is none).
pub open spec fn last_piece(body: Seq<char>) -> Seq<char> {
    body.skip(last_sep(body) + 1)
}

/// `body` without its last piece and the `/` before it.
pub open spec fn before_last_piece(body: Seq<char>) -> Seq<char> {
    if last_sep(body) < 0 {
        seq![]
    } else {
        body.take(last_sep(body))
    }
}

pub proof fn lemma_last_sep(s: Seq<char>)
    ensures
        -1 <= last_sep(s) < s.len(),
        last_sep(s) >= 0 ==> s[last_sep(s)] == '/',
        forall|k: int| last_sep(s) < k < s.len() ==> s[k] != '/',
    decreases s.len(),
{
    if s.len() > 0 && s.last() != '/' {
        lemma_last_sep(s.drop_last());
        assert forall|k: int| last_sep(s) < k < s.len() implies s[k] != '/' by {
            if k < s.len() - 1 {
                assert(s[k] == s.drop_last()[k]);
            }
        }
    }
}

pub proof fn lemma_last_dot(s: Seq<char>)
    ensures
        -1 <= last_dot(s) < s.len(),
    decreases s.len(),
{
    if s.len() > 0 && s.last() != '.' {
        lemma_last_dot(s.drop_last());
    }
}

/// Reading a body from the back, trailing empty and `.` pieces dropped: what stands
/// before the last component, and that component if there is one.
pub open spec fn back_component(body: Seq<char>) -> (Seq<char>, Option<Seq<char>>)
    decreases body.len(),
{
    if body.len() == 0 {
        (body, None)
    } else {
        let piece = last_piece(body);
        let rest = before_last_piece(body);
        if piece.len() == 0 || piece == seq!['.'] {
            proof {
                lemma_last_sep(body);
            }
            back_component(rest)
        } else {
            (rest, Some(piece))
        }
    }
}

/// A body without trailing empty and `.` pieces.
pub open spec fn trim_back(body: Seq<char>) -> Seq<char>
    decreases body.len(),
{
    if body.len() == 0 {
        body
    } else {
        let piece = last_piece(body);
        if piece.len() == 0 || piece == seq!['.'] {
            proof {
                lemma_last_sep(body);
            }
            trim_back(before_last_piece(body))
        } else {
            body
        }
    }
}

/// Whether `p` starts with a current-directory component (`.` alone or `./...`).
pub open spec fn has_cur_dir(p: Seq<char>) -> bool {
    !is_rooted(p) && p.len() > 0 && p[0] == '.' && (p.len() == 1 || p[1] == '/')
}

/// The text of `p` before its body: the root, or a leading `.`.
pub open spec fn prefix_len(p: Seq<char>) -> int {
    if is_rooted(p) || has_cur_dir(p) {
        1
    } else {
        0
    }
}

/// `Path::parent` as text: `p` without its last component and the separators and `.`
/// pieces around it; none for the root and for the empty path.
pub open spec fn parent(p: Seq<char>) -> Option<Seq<char>> {
    let pre = prefix_len(p);
    let (rest, comp) = back_component(p.skip(pre));
    if comp is Some {
        Some(p.take(pre) + trim_back(rest))
    } else if has_cur_dir(p) {
        Some(seq![])
    } else {
        None
    }
}

/// `Path::join`: an absolute `tail` replaces `base`; otherwise `tail` follows `base`,
/// with a `/` between them unless `base` is empty or already ends with one.
pub open spec fn join(base: Seq<char>, tail: Seq<char>) -> Seq<char> {
    if is_rooted(tail) {
        tail
    } else if base.len() == 0 || base.last() == '/' {
        base + tail
    } else {
        base + seq!['/'] + tail
    }
}

// ---------------------------------------------------------------------------
// Implementations
// ---------------------------------------------------------------------------

/// The pieces of `s` between `/` separators.
pub fn split_pieces(s: &[char]) -> (r: Vec<Vec<char>>)
    ensures
        char_vecs(r@) == pieces(s@),
{
    let mut done: Vec<Vec<char>> = Vec::new();
    let mut cur: Vec<char> = Vec::new();
    let mut i: usize = 0;
    while i < s.len()
        invariant
            i <= s@.len(),
            (char_vecs(done@), cur@) == pieces_scan(s@.take(i as int)),
        decreases s@.len() - i,
    {
        let ghost prev = s@.take(i as int);
        assert(s@.take(i + 1).drop_last() =~= prev);
        if s[i] == '/' {
            done.push(cur);
            cur = Vec::new();
            assert(char_vecs(done@) =~= pieces_scan(prev).0.push(pieces_scan(prev).1));
        } else {
            cur.push(s[i]);
        }
        i = i + 1;
    }
    assert(s@.take(i as int) =~= s@);
    done.push(cur);
    assert(char_vecs(done@) =~= pieces(s@));
    done
}

/// The components of `p`, each as text.
pub fn path_components(p: &[char]) -> (r: Vec<Vec<char>>)
    ensures
        char_vecs(r@) == components(p@),
{
    let ps = split_pieces(p);
    let ghost all = char_vecs(ps@);
    assert(pieces(p@).len() > 0);
    assert(ps@.len() == all.len());
    let mut out: Vec<Vec<char>> = Vec::new();
    let rooted = p.len() > 0 && p[0] == '/';
    let first_dot = !rooted && eq_str(ps[0].as_slice(), ".");
    proof {
        reveal_strlit(".");
        assert("."@ =~= seq!['.']);
    }
    let mut start: usize = 0;
    if rooted {
        let mut c: Vec<char> = Vec::new();
        c.push('/');
        out.push(c);
        start = 1;
    } else if first_dot {
        let mut c: Vec<char> = Vec::new();
        c.push('.');
        out.push(c);
        start = 1;
    }
    let ghost head = char_vecs(out@);
    let ghost tail = all.skip(start as int);
    assert(start == 1 ==> ps@[0]@ == seq!['.'] || rooted);
    proof {
        reveal_strlit(".");
        assert(head == (if rooted {
            seq![seq!['/']]
        } else if all[0] == seq!['.'] {
            seq![seq!['.']]
        } else {
            seq![]
        }));
        assert(body_parts(tail.take(0)) =~= seq![]);
        assert(char_vecs(out@) =~= head + body_parts(tail.take(0)));
    }
    let mut i: usize = start;
    while i < ps.len()
        invariant
            start <= i <= ps@.len(),
            all == char_vecs(ps@),
            tail == all.skip(start as int),
            char_vecs(out@) == head + body_parts(tail.take(i - start)),
        decreases ps@.len() - i,
    {
        let piece = ps[i].as_slice();
        assert(tail.take(i + 1 - start).drop_last() =~= tail.take(i - start));
        assert(tail.take(i + 1 - start).last() == piece@);
        let skip = piece.len() == 0 || eq_str(piece, ".");
        proof {
            reveal_strlit(".");
            assert("."@ =~= seq!['.']);
        }
        if !skip {
            let ghost before = char_vecs(out@);
            out.push(copy_chars(piece));
            assert(char_vecs(out@) =~= before.push(piece@));
        }
        i = i + 1;
    }
    assert(tail.take(i - start) =~= tail);
    proof {
        if rooted {
            assert(components(p@) =~= head + body_parts(tail));
        } else if all[0] == seq!['.'] {
            assert(components(p@) =~= head + body_parts(tail));
        } else {
            assert(tail =~= all);
            assert(components(p@) =~= head + body_parts(tail));
        }
    }
    out
}

/// Index of the last `.` of `n`, or `n.len()` when there is none.
fn find_last_dot(n: &[char]) -> (r: usize)
    ensures
        last_dot(n@) < 0 ==> r == n@.len(),
        last_dot(n@) >= 0 ==> r == last_dot(n@),
{
    let mut j: usize = n.len();
    assert(n@.take(n@.len() as int) =~= n@);
    proof {
        lemma_last_dot(n@);
    }
    while j > 0
        invariant
            j <= n@.len(),
            last_dot(n@) == last_dot(n@.take(j as int)),
        decreases j,
    {
        if n[j - 1] == '.' {
            return j - 1;
        }
        assert(n@.take(j as int).drop_last() =~= n@.take(j - 1));
        j = j - 1;
    }
    n.len()
}

/// The last component of `p` when it is a name.
pub fn path_file_name(p: &[char]) -> (r: Option<Vec<char>>)
    ensures
        match r {
            Some(n) => file_name(p@) == Some(n@),
            None => file_name(p@) is None,
        },
{
    let cs = path_components(p);
    if cs.len() == 0 {
        return None;
    }
    let last = cs[cs.len() - 1].as_slice();
    assert(char_vecs(cs@).last() == last@);
    if is_name_chars(last) {
        Some(copy_chars(last))
    } else {
        None
    }
}

/// Whether a component text is a name.
fn is_name_chars(c: &[char]) -> (r: bool)
    ensures
        r == is_name(c@),
{
    let root = eq_str(c, "/");
    let cur = eq_str(c, ".");
    let up = eq_str(c, "..");
    proof {
        reveal_strlit("/");
        reveal_strlit(".");
        reveal_strlit("..");
        assert("/"@ =~= seq!['/']);
        assert("."@ =~= seq!['.']);
        assert(".."@ =~= seq!['.', '.']);
    }
    !root && !cur && !up
}

/// The extension of `p`, if any.
pub fn path_extension(p: &[char]) -> (r: Option<Vec<char>>)
    ensures
        match r {
            Some(e) => extension(p@) == Some(e@),
            None => extension(p@) is None,
        },
{
    match path_file_name(p) {
        None => None,
        Some(n) => {
            let d = find_last_dot(n.as_slice());
            proof {
                lemma_last_dot(n@);
            }
            if d > 0 && d < n.len() {
                let e = sub_chars(n.as_slice(), d + 1, n.len());
                assert(e@ =~= n@.skip(d + 1));
                Some(e)
            } else {
                None
            }
        },
    }
}

/// The stem of the file name of `p`, if `p` ends in a name.
pub fn path_file_stem(p: &[char]) -> (r: Option<Vec<char>>)
    ensures
        match r {
            Some(e) => file_stem(p@) == Some(e@),
            None => file_stem(p@) is None,
        },
{
    match path_file_name(p) {
        None => None,
        Some(n) => {
            let d = find_last_dot(n.as_slice());
            proof {
                lemma_last_dot(n@);
            }
            if d > 0 && d < n.len() {
                let e = sub_chars(n.as_slice(), 0, d);
                assert(e@ =~= n@.take(d as int));
                Some(e)
            } else {
                Some(n)
            }
        },
    }
}

/// The name of the directory holding `p`, if the component before its last is a name.
pub fn path_parent_name(p: &[char]) -> (r: Option<Vec<char>>)
    ensures
        match r {
            Some(n) => parent_name(p@) == Some(n@),
            None => parent_name(p@) is None,
        },
{
    let cs = path_components(p);
    let n = cs.len();
    if n < 2 {
        return None;
    }
    let last = cs[n - 1].as_slice();
    let prev = cs[n - 2].as_slice();
    assert(char_vecs(cs@).last() == last@);
    assert(char_vecs(cs@)[n - 2] == prev@);
    let last_root = eq_str(last, "/");
    proof {
        reveal_strlit("/");
        assert("/"@ =~= seq!['/']);
    }
    if !last_root && is_name_chars(prev) {
        Some(copy_chars(prev))
    } else {
        None
    }
}

/// Index of the last `/` in `s[..end]`, or -1 as `end` when there is none: returns
/// `(found, index)`.
fn find_last_sep(s: &[char], end: usize) -> (r: (bool, usize))
    requires
        end <= s@.len(),
    ensures
        r.0 == (last_sep(s@.take(end as int)) >= 0),
        r.0 ==> r.1 == last_sep(s@.take(end as int)),
        r.0 ==> r.1 < end,
{
    let mut j: usize = end;
    proof {
        lemma_last_sep(s@.take(end as int));
    }
    while j > 0
        invariant
            j <= end <= s@.len(),
            last_sep(s@.take(end as int)) == last_sep(s@.take(j as int)),
        decreases j,
    {
        if s[j - 1] == '/' {
            return (true, j - 1);
        }
        assert(s@.take(j as int).drop_last() =~= s@.take(j - 1));
        j = j - 1;
    }
    (false, 0)
}

proof fn lemma_piece_skip(p: Seq<char>, start: int, end: int)
    requires
        0 <= start <= end <= p.len(),
    ensures
        (p.subrange(start, end).len() == 0 || p.subrange(start, end) == seq!['.']) == (start == end
            || (end - start == 1 && p[start] == '.')),
{
    let piece = p.subrange(start, end);
    if end - start == 1 {
        assert(piece[0] == p[start]);
        if p[start] == '.' {
            assert(piece =~= seq!['.']);
        }
    }
    if piece == seq!['.'] {
        assert(piece.len() == 1);
    }
}

/// One step of reading `p[pre..end]` from the back: where the text before its last
/// piece ends, and whether that piece is empty or `.`.
fn back_step(p: &[char], pre: usize, end: usize) -> (r: (usize, bool))
    requires
        pre < end <= p@.len(),
    ensures
        pre <= r.0 < end,
        before_last_piece(p@.subrange(pre as int, end as int)) == p@.subrange(pre as int, r.0 as int),
        r.1 == (last_piece(p@.subrange(pre as int, end as int)).len() == 0 || last_piece(
            p@.subrange(pre as int, end as int),
        ) == seq!['.']),
{
    let ghost body = p@.subrange(pre as int, end as int);
    let (has, j) = find_last_sep(p, end);
    proof {
        lemma_last_sep(body);
        lemma_last_sep_shift(p@, pre as int, end as int);
    }
    let start: usize = if has && j >= pre { j + 1 } else { pre };
    let new_end: usize = if has && j >= pre { j } else { pre };
    assert(last_sep(body) == new_end - pre || (last_sep(body) == -1 && new_end == pre));
    assert(last_piece(body) =~= p@.subrange(start as int, end as int));
    assert(before_last_piece(body) =~= p@.subrange(pre as int, new_end as int));
    let skip = start == end || (end - start == 1 && p[start] == '.');
    proof {
        lemma_piece_skip(p@, start as int, end as int);
    }
    (new_end, skip)
}

/// `Path::parent` of `p`, as text.
pub fn path_parent(p: &[char]) -> (r: Option<Vec<char>>)
    ensures
        match r {
            Some(q) => parent(p@) == Some(q@),
            None => parent(p@) is None,
        },
{
    let n = p.len();
    let rooted = n > 0 && p[0] == '/';
    let cur = !rooted && n > 0 && p[0] == '.' && (n == 1 || p[1] == '/');
    let pre: usize = if rooted || cur { 1 } else { 0 };
    let ghost body = p@.skip(pre as int);
    assert(pre == prefix_len(p@));
    assert(p@.subrange(pre as int, n as int) =~= body);
    let mut end: usize = n;
    let mut found = false;
    while !found && end > pre
        invariant
            pre <= end <= n,
            n == p@.len(),
            body == p@.skip(pre as int),
            !found ==> back_component(body) == back_component(p@.subrange(pre as int, end as int)),
            found ==> back_component(body).0 == p@.subrange(pre as int, end as int),
            found ==> back_component(body).1 is Some,
        decreases end,
    {
        let (new_end, skip) = back_step(p, pre, end);
        end = new_end;
        if !skip {
            found = true;
        }
    }
    if !found {
        assert(p@.subrange(pre as int, end as int).len() == 0);
        if cur {
            return Some(Vec::new());
        }
        return None;
    }
    let mut stop = end;
    let mut done = false;
    while !done && stop > pre
        invariant
            pre <= stop <= end <= n,
            n == p@.len(),
            trim_back(p@.subrange(pre as int, end as int)) == (if done {
                p@.subrange(pre as int, stop as int)
            } else {
                trim_back(p@.subrange(pre as int, stop as int))
            }),
        decreases 2 * stop + (if done {
            0int
        } else {
            1int
        }),
    {
        let (new_stop, skip) = back_step(p, pre, stop);
        if skip {
            stop = new_stop;
        } else {
            done = true;
        }
    }
    if !done {
        assert(p@.subrange(pre as int, stop as int).len() == 0);
    }
    let r = sub_chars(p, 0, stop);
    assert(r@ =~= p@.take(pre as int) + p@.subrange(pre as int, stop as int));
    Some(r)
}

/// The last separator of `p[pre..end]`, measured from `pre`, is the last separator of
/// `p[..end]` when that one lies at or after `pre`.
proof fn lemma_last_sep_shift(p: Seq<char>, pre: int, end: int)
    requires
        0 <= pre <= end <= p.len(),
    ensures
        last_sep(p.subrange(pre, end)) == if last_sep(p.take(end)) >= pre {
            last_sep(p.take(end)) - pre
        } else {
            -1
        },
    decreases end - pre,
{
    if end > pre {
        assert(p.subrange(pre, end).drop_last() =~= p.subrange(pre, end - 1));
        assert(p.take(end).drop_last() =~= p.take(end - 1));
        if p[end - 1] != '/' {
            lemma_last_sep_shift(p, pre, end - 1);
        }
    } else {
        lemma_last_sep(p.take(end));
    }
}

/// `Path::join` of two texts.
pub fn path_join(base: &[char], tail: &[char]) -> (r: Vec<char>)
    ensures
        r@ == join(base@, tail@),
{
    if tail.len() > 0 && tail[0] == '/' {
        return copy_chars(tail);
    }
    let mut out = copy_chars(base);
    if base.len() > 0 && base[base.len() - 1] != '/' {
        out.push('/');
    }
    let ghost head = out@;
    let mut i: usize = 0;
    while i < tail.len()
        invariant
            i <= tail@.len(),
            out@ == head + tail@.take(i as int),
        decreases tail@.len() - i,
    {
        out.push(tail[i]);
        i = i + 1;
        assert(out@ =~= head + tail@.take(i as int));
    }
    assert(tail@.take(i as int) =~= tail@);
    out
}

/// Where a link read at `current` leads: an absolute target as it is, a relative one
/// taken from the directory holding `current` (or from `.` when there is none).
pub open spec fn absolute_target(current: Seq<char>, t: Seq<char>) -> Seq<char> {
    if is_rooted(t) {
        t
    } else {
        join(
            match parent(current) {
                Some(p) => p,
                None => seq!['.'],
            },
            t,
        )
    }
}

/// Where a link read at `current` and pointing to `t` leads (see [`absolute_target`]).
pub fn absolute_link_target(current: &[char], t: &[char]) -> (r: Vec<char>)
    ensures
        r@ == absolute_target(current@, t@),
{
    if t.len() > 0 && t[0] == '/' {
        copy_chars(t)
    } else {
        let base = match path_parent(current) {
            Some(p) => p,
            None => {
                let mut d: Vec<char> = Vec::new();
                d.push('.');
                assert(d@ =~= seq!['.']);
                d
            },
        };
        path_join(base.as_slice(), t)
    }
}

} // verus!
